use vstd::prelude::*;

use crate::analyzer::{group_analyzer, Analyzer, AnalyzerView};
use crate::common::{option_view, outcome, CompileError, ErrorView, LineInfo, Span, Stop, StopView};
use crate::context::{
    kind_holds, kind_includes, type_models, value_models, Context, ContextView, Float, FloatView,
    Imm, ImmView, Type, TypeView, Value, ValueView,
};
use crate::text::{join2, size_decimal, size_text};
use crate::token::{Token, TokenKind, TokenView};

verus! {

impl AnalyzerView {
    /// An error at a region of the current file.
    #[verifier::opaque]
    pub open spec fn make_err(
        self,
        msg: Seq<char>,
        line: Span,
    ) -> ErrorView
    {
        let s = self;
        ErrorView::SemError { file_path: s.get_current_src_path(), line_info: line, msg: msg }
    }

    /// A warning at a region of the current file.
    #[verifier::opaque]
    pub open spec fn make_warning(
        self,
        msg: Seq<char>,
        line: Span,
    ) -> ErrorView
    {
        let s = self;
        ErrorView::SemWarning { file_path: s.get_current_src_path(), line_info: line, msg: msg }
    }

    /// A note at a region of the current file.
    #[verifier::opaque]
    pub open spec fn make_note(
        self,
        msg: Seq<char>,
        line: Span,
    ) -> ErrorView
    {
        let s = self;
        ErrorView::SemNote { file_path: s.get_current_src_path(), line_info: line, msg: msg }
    }

    /// A note without a file.
    #[verifier::opaque]
    pub open spec fn make_note_no_path(
        self,
        msg: Seq<char>,
    ) -> ErrorView
    {
        ErrorView::SemNoteWithoutPath { msg: msg }
    }

    /// A note at a region of the given file.
    #[verifier::opaque]
    pub open spec fn make_note_with_path(
        self,
        msg: Seq<char>,
        file_path: Seq<char>,
        line: Span,
    ) -> ErrorView
    {
        ErrorView::SemNote { file_path, line_info: line, msg: msg }
    }

    /// A piece of advice.
    #[verifier::opaque]
    pub open spec fn make_help(
        self,
        msg: Seq<char>,
    ) -> ErrorView
    {
        ErrorView::SemHelp { msg: msg }
    }

    /// The immediate value that a value is.
    #[verifier::opaque]
    pub open spec fn imm_of(
        self,
        value: ValueView,
    ) -> Result<ImmView, StopView>
    {
        match value {
            ValueView::Imm(imm) => {
                Ok(imm)
            },
            _ => {
                Err(StopView::Unsupported("probably some analyzer bug"@))
            },
        }
    }

    /// The immediate value of a type for an integer literal.
    #[verifier::opaque]
    pub open spec fn transform_varint(
        self,
        lhs: TypeView,
        rhs: ImmView,
        line: Span,
        shown_as: Option<Seq<char>>,
    ) -> Result<ImmView, StopView>
        decreases lhs,
    {
        let s = self;
        match rhs {
            ImmView::VarInt(num) => {
                match lhs {
                    TypeView::VarInt => {
                        Ok(rhs)
                    },
                    TypeView::Float32 => {
                        Ok(ImmView::Float32(FloatView::FromInt(num)))
                    },
                    TypeView::Float64 => {
                        Ok(ImmView::Float64(FloatView::FromInt(num)))
                    },
                    TypeView::Const(inner) => {
                        s.transform_varint(*inner, rhs, line, shown_as)
                    },
                    _ => {
                        match lhs.int_kind() { None => {
                            Err(StopView::Unsupported("invalid type for varint conversion"@))
                        }, Some(kind) => {
                        match ImmView::of_int(kind, num) { None => {
                            match shown_as {
                                Some(name) => {
                                    Err(
                                        StopView::Errors(
                                            s.make_err(
                                                (
                                                    "'"@
                                                        + name
                                                        + "' cannot hold this value: '"@
                                                        + rhs.to_text()
                                                        + "'"@
                                                ),
                                                line,
                                            ),
                                        ),
                                    )
                                },
                                None => {
                                    Err(
                                        StopView::Errors(
                                            s.make_err(
                                                (
                                                    "'"@
                                                        + lhs.to_text()
                                                        + "' cannot hold this value: '"@
                                                        + rhs.to_text()
                                                        + "'"@
                                                ),
                                                line,
                                            ),
                                        ),
                                    )
                                },
                            }
                        }, Some(imm) => {
                        Ok(imm)
                        }}}}
                    },
                }
            },
            _ => {
                Err(StopView::Unsupported("not a valid conversion"@))
            },
        }
    }

    /// The immediate value of type `int` for an integer literal.
    #[verifier::opaque]
    pub open spec fn transform_varint_to_int(
        self,
        value: ImmView,
        line: Span,
    ) -> Result<ImmView, StopView>
    {
        let s = self;
        let taipe = s.int_type();
        s.transform_varint(taipe, value, line, Some("int"@))
    }

    /// The immediate value of type `usize` for an integer literal.
    #[verifier::opaque]
    pub open spec fn transform_varint_to_usize(
        self,
        value: ImmView,
        line: Span,
    ) -> Result<ImmView, StopView>
    {
        let s = self;
        let taipe = s.usize_type();
        s.transform_varint(taipe, value, line, Some("usize"@))
    }

    /// The immediate value of a type for another immediate value that it can hold without loss.
    #[verifier::opaque]
    pub open spec fn transform_imm(
        self,
        lhs: TypeView,
        rhs: ImmView,
        line: Span,
        shown_as: Option<Seq<char>>,
    ) -> Result<ImmView, StopView>
        decreases lhs,
    {
        let s = self;
        match lhs {
            TypeView::Const(inner) => {
                s.transform_imm(*inner, rhs, line, shown_as)
            },
            _ => {
                match rhs {
                    ImmView::VarInt(_) => {
                        s.transform_varint(lhs, rhs, line, shown_as)
                    },
                    _ => {
                        match lhs.int_kind() { None => {
                            Err(StopView::Unsupported("invalid type for value conversion"@))
                        }, Some(to) => {
                        match rhs.int_kind() { None => {
                            Err(StopView::Unsupported("invalid type for value conversion"@))
                        }, Some(from) => {
                        if kind_includes(to, from) {
                            Ok(rhs.cast_to(to))
                        } else {
                            Err(StopView::Unsupported("invalid type for value conversion"@))
                        }
                        }}}}
                    },
                }
            },
        }
    }

    /// The immediate value of type `usize` for another immediate value.
    #[verifier::opaque]
    pub open spec fn transform_imm_to_usize(
        self,
        value: ImmView,
        line: Span,
    ) -> Result<ImmView, StopView>
    {
        let s = self;
        let taipe = s.usize_type();
        s.transform_imm(taipe, value, line, Some("usize"@))
    }

    /// A size as a value of the program.
    #[verifier::opaque]
    pub open spec fn usize2usize(
        self,
        size: usize,
        line: Span,
    ) -> Result<ContextView, StopView>
    {
        let s = self;
        let taipe = s.usize_type();
        match taipe.int_kind() { None => {
            Err(StopView::Unsupported("invalid type for Analyzer::type_usize"@))
        }, Some(kind) => {
        match ImmView::of_size(kind, size) { None => {
            Err(
                StopView::Errors(
                    s.make_err(
                        ("'usize' cannot hold this value: '"@ + size_decimal(size) + "'"@),
                        line,
                    ),
                ),
            )
        }, Some(imm) => {
        Ok(ContextView::make(false, taipe, ValueView::Imm(imm)))
        }}}}
    }

    /// The value of a type that has all its parts zero. The message of an error calls it the
    /// `what` value.
    #[verifier::opaque]
    pub open spec fn get_plain_value(
        self,
        top: TypeView,
        cur: TypeView,
        line: Span,
        what: Seq<char>,
    ) -> Result<ContextView, StopView>
        decreases cur, 0int, 0int,
    {
        let s = self;
        match cur {
            TypeView::Bool => {
                Ok(ContextView::from_imm(TypeView::Bool, ImmView::Bool(false)))
            },
            TypeView::Char => {
                Ok(ContextView::from_imm(TypeView::Char, ImmView::Char('\0')))
            },
            TypeView::VarInt => {
                Err(StopView::Unsupported("probably some analyzer bug"@))
            },
            TypeView::Float32 => {
                Ok(
                    ContextView::from_imm(
                        TypeView::Float32,
                        ImmView::Float32(FloatView::FromUnsigned(0)),
                    ),
                )
            },
            TypeView::Float64 => {
                Ok(
                    ContextView::from_imm(
                        TypeView::Float64,
                        ImmView::Float64(FloatView::FromUnsigned(0)),
                    ),
                )
            },
            TypeView::Const(inner) => {
                match s.get_plain_value(top, *inner, line, what) { Err(e) => Err(e), Ok(ctx) => {
                Ok(ctx.add_const())
                }}
            },
            TypeView::Pointer(_) => {
                Err(StopView::Unsupported(("pointer "@ + what + " value"@)))
            },
            TypeView::Fat(_) => {
                Err(StopView::Unsupported(("fat pointer "@ + what + " value"@)))
            },
            TypeView::Array { count, taipe } => {
                if count == 0 {
                    Ok(ContextView::make(false, cur, ValueView::Array(seq![])))
                } else {
                match s.get_plain_value(top, *taipe, line, what) { Err(e) => Err(e), Ok(item) => {
                let values = ValueView::repeat(item.value, count);
                Ok(ContextView::make(false, cur, ValueView::Array(values)))
                }}}
            },
            TypeView::Tuple(items) => {
                match s.more_plain_values(top, items, line, what, seq![], 0) {
                    Err(e) => Err(e), Ok(values) => {
                Ok(ContextView::make(false, cur, values))
                }}
            },
            _ => {
                match cur.int_kind() {
                    Some(kind) => {
                        match ImmView::of_size(kind, 0) { None => {
                            Err(StopView::Unsupported("probably some analyzer bug"@))
                        }, Some(imm) => {
                        Ok(ContextView::from_imm(cur, imm))
                        }}
                    },
                    None => {
                        Err(
                            StopView::Errors(
                                ErrorView::pair(
                                    s.make_err(
                                        (
                                            "type does not have a "@
                                                + what
                                                + " value: '"@
                                                + top.to_text()
                                                + "'"@
                                        ),
                                        line,
                                    ),
                                    s.make_note_no_path(
                                        (
                                            "error occured because this type does not have a "@
                                                + what
                                                + " value: '"@
                                                + cur.to_text()
                                                + "'"@
                                        ),
                                    ),
                                ),
                            ),
                        )
                    },
                }
            },
        }
    }

    /// The tuple of the given values and of the plain values of the remaining types.
    #[verifier::opaque]
    pub open spec fn more_plain_values(
        self,
        top: TypeView,
        items: Seq<TypeView>,
        line: Span,
        what: Seq<char>,
        values: Seq<ValueView>,
        i: int,
    ) -> Result<ValueView, StopView>
        decreases items, 0int, items.len() - i,
    {
        let s = self;
        if i < 0 || i >= items.len() {
            Ok(ValueView::Tuple(values))
        } else {
        match s.get_plain_value(top, items[i], line, what) { Err(e) => Err(e), Ok(item) => {
        s.more_plain_values(top, items, line, what, values.push(item.value), i + 1)
        }}}
    }

    /// The default value of a type.
    #[verifier::opaque]
    pub open spec fn get_default_value(
        self,
        taipe: TypeView,
        line: Span,
    ) -> Result<ContextView, StopView>
    {
        let s = self;
        s.get_plain_value(taipe, taipe, line, "default"@)
    }

    /// The zero value of a type.
    #[verifier::opaque]
    pub open spec fn get_zero_value(
        self,
        taipe: TypeView,
        line: Span,
    ) -> Result<ContextView, StopView>
    {
        let s = self;
        s.get_plain_value(taipe, taipe, line, "zero"@)
    }

    /// Whether values of a type can be cast to another type.
    #[verifier::opaque]
    pub open spec fn is_castable(
        self,
        from: TypeView,
        to: TypeView,
    ) -> bool
    {
        if from.is_integer() && to.is_integer() {
            true
        } else {
            if from.is_integer() && to.is_float() {
                true
            } else {
                if from.is_float() && to.is_integer() {
                    true
                } else {
                    if from.is_array() && to.is_fat_ptr() {
                        match from.remove_const() {
                            TypeView::Array { count: _, taipe: item } => {
                                match to.remove_const() {
                                    TypeView::Fat(target) => {
                                        (*item).same(*target)
                                    },
                                    _ => {
                                        false
                                    },
                                }
                            },
                            _ => {
                                false
                            },
                        }
                    } else {
                        false
                    }
                }
            }
        }
    }

    /// Gives an integer literal the type that it is assigned to, or `int` where there is none.
    #[verifier::opaque]
    pub open spec fn settle_varint(
        self,
        lhs: Option<(TypeView, Span)>,
        rhs: ContextView,
        line: Span,
    ) -> Result<ContextView, StopView>
    {
        let s = self;
        if !rhs.taipe.is_varint() {
            Ok(rhs)
        } else {
        match lhs {
            Some((taipe, _)) => {
                if taipe.is_integer() && !taipe.is_varint() {
                    match s.imm_of(rhs.value) { Err(e) => Err(e), Ok(imm) => {
                    match s.transform_varint(taipe, imm, line, None) {
                        Err(e) => Err(e), Ok(value) => {
                    Ok(ContextView::make(rhs.is_lvalue, taipe, ValueView::Imm(value)))
                    }}}}
                } else {
                    Ok(rhs)
                }
            },
            None => {
                match s.imm_of(rhs.value) { Err(e) => Err(e), Ok(imm) => {
                match s.transform_varint_to_int(imm, line) { Err(e) => Err(e), Ok(value) => {
                Ok(ContextView::make(rhs.is_lvalue, s.int_type(), ValueView::Imm(value)))
                }}}}
            },
        }
        }
    }

    /// Checks an assignment and gives what is assigned. In a declaration, `eq_token` is what
    /// stands between the type and the value; in an assignment there is none.
    #[verifier::opaque]
    pub open spec fn resolve_assign(
        self,
        lhs: Option<(TypeView, Span)>,
        eq_token: Option<TokenView>,
        rhs: Option<(ContextView, Span)>,
    ) -> Result<ContextView, StopView>
    {
        let s = self;
        match rhs {
            Some((ctx, line)) => {
                s.assign_value(lhs, eq_token, ctx, line)
            },
            None => {
                match lhs {
                    Some((taipe, _)) => {
                        if eq_token.is_some() {
                            Err(StopView::Unsupported("a value is missing"@))
                        } else {
                        Ok(ContextView::make(false, taipe, ValueView::from_nil()))
                        }
                    },
                    None => {
                        Err(
                            StopView::Unsupported(
                                "either type or value information should be present"@,
                            ),
                        )
                    },
                }
            },
        }
    }

    /// Checks the assignment of a value.
    #[verifier::opaque]
    pub open spec fn assign_value(
        self,
        lhs: Option<(TypeView, Span)>,
        eq_token: Option<TokenView>,
        rhs: ContextView,
        rhs_line: Span,
    ) -> Result<ContextView, StopView>
    {
        let s = self;
        if rhs.taipe.is_void() {
            Err(
                StopView::Errors(
                    s.make_err(("cannot assign value of type '"@ + rhs.to_text() + "'"@), rhs_line),
                ),
            )
        } else {
        match s.settle_varint(lhs, rhs, rhs_line) { Err(e) => Err(e), Ok(rhs) => {
        match lhs {
            None => {
                match eq_token { None => {
                    Err(StopView::Unsupported("probably some analyzer bug"@))
                }, Some(token) => {
                match token.kind {
                    TokenKind::Colon => {
                        Ok(ContextView::make(false, rhs.taipe.add_const(), rhs.value))
                    },
                    TokenKind::Equal => {
                        let taipe = rhs.taipe.remove_const();
                        if taipe.is_const() {
                            Err(StopView::Errors(s.make_err("expected ':'"@, token.line_info)))
                        } else {
                        Ok(ContextView::make(false, taipe, rhs.value))
                        }
                    },
                    _ => {
                        Err(StopView::Unsupported("probably some parser bug"@))
                    },
                }
                }}
            },
            Some((taipe, lhs_line)) => {
                match eq_token {
                    None => {
                        s.resolve_implicit_cast(taipe, lhs_line, rhs, rhs_line, false)
                    },
                    Some(token) => {
                        match token.kind {
                            TokenKind::Colon => {
                                s.resolve_implicit_cast(taipe, lhs_line, rhs, rhs_line, true)
                            },
                            TokenKind::Equal => {
                                if taipe.is_const() {
                                    Err(
                                        StopView::Errors(
                                            s.make_err("expected ':'"@, token.line_info),
                                        ),
                                    )
                                } else {
                                s.resolve_implicit_cast(taipe, lhs_line, rhs, rhs_line, false)
                                }
                            },
                            _ => {
                                Err(StopView::Unsupported("probably some parser bug"@))
                            },
                        }
                    },
                }
            },
        }
        }}}
    }

    /// Checks that a value has the type that it is assigned to, and converts it where that goes
    /// without saying. The first assignment to a constant is allowed.
    #[verifier::opaque]
    pub open spec fn resolve_implicit_cast(
        self,
        lhs: TypeView,
        lhs_line: Span,
        rhs: ContextView,
        rhs_line: Span,
        allow_const: bool,
    ) -> Result<ContextView, StopView>
    {
        let s = self;
        let rhs = ContextView::make(rhs.is_lvalue, rhs.taipe.remove_const(), rhs.value);
        let lhs = if allow_const { lhs.remove_const() } else { lhs };
        match s.implicit_value(lhs, lhs_line, rhs, rhs_line, allow_const) {
            Err(e) => Err(e), Ok(value) => {
        let lhs = if allow_const { lhs.add_const() } else { lhs };
        Ok(ContextView::make(false, lhs, value))
        }}
    }

    /// The reports that a value cannot be assigned.
    #[verifier::opaque]
    pub open spec fn assign_err(
        self,
        lhs: TypeView,
        lhs_line: Span,
        rhs: ContextView,
        rhs_line: Span,
    ) -> ErrorView
    {
        let s = self;
        ErrorView::pair(
                s.make_err(("cannot assign value of type '"@ + rhs.to_text() + "'"@), rhs_line),
                s.make_note(("cannot assign to '"@ + lhs.to_text() + "'"@), lhs_line))
    }

    /// The value that is assigned, converted where that goes without saying.
    #[verifier::opaque]
    pub open spec fn implicit_value(
        self,
        lhs: TypeView,
        lhs_line: Span,
        rhs: ContextView,
        rhs_line: Span,
        allow_const: bool,
    ) -> Result<ValueView, StopView>
    {
        let s = self;
        if lhs.widens_from(rhs.taipe) {
            Ok(ValueView::Cast(Box::new(rhs)))
        } else {
        match lhs {
            TypeView::Float32 => {
                match rhs.taipe {
                    TypeView::VarInt => {
                        match s.imm_of(rhs.value) { Err(e) => Err(e), Ok(imm) => {
                        match imm {
                            ImmView::VarInt(num) => {
                                Ok(ValueView::Imm(ImmView::Float32(FloatView::FromInt(num))))
                            },
                            _ => {
                                Err(StopView::Unsupported("probably some analyzer bug"@))
                            },
                        }
                        }}
                    },
                    TypeView::Float64 => {
                        Ok(ValueView::Cast(Box::new(rhs)))
                    },
                    _ => {
                        s.same_type_value(lhs, lhs_line, rhs, rhs_line)
                    },
                }
            },
            TypeView::Float64 => {
                match rhs.taipe {
                    TypeView::VarInt => {
                        match s.imm_of(rhs.value) { Err(e) => Err(e), Ok(imm) => {
                        match imm {
                            ImmView::VarInt(num) => {
                                Ok(ValueView::Imm(ImmView::Float64(FloatView::FromInt(num))))
                            },
                            _ => {
                                Err(StopView::Unsupported("probably some analyzer bug"@))
                            },
                        }
                        }}
                    },
                    _ => {
                        s.same_type_value(lhs, lhs_line, rhs, rhs_line)
                    },
                }
            },
            TypeView::Const(_) => {
                if !allow_const {
                    Err(
                        StopView::Errors(
                            ErrorView::pair(
                                s.make_err(
                                    (
                                        "cannot assign to a constant of type: '"@
                                            + lhs.to_text()
                                            + "'"@
                                    ),
                                    lhs_line,
                                ),
                                s.make_note(
                                    ("type of value is '"@ + rhs.to_text() + "'"@),
                                    rhs_line,
                                ),
                            ),
                        ),
                    )
                } else {
                Err(StopView::Unsupported("not supposed to happen"@))
                }
            },
            TypeView::Pointer(target) => {
                match rhs.taipe {
                    TypeView::Pointer(source) => {
                        if !target.is_const() && source.is_const() {
                            Err(StopView::Errors(s.assign_err(lhs, lhs_line, rhs, rhs_line)))
                        } else {
                        if !target.remove_const().same(source.remove_const()) {
                            Err(StopView::Errors(s.assign_err(lhs, lhs_line, rhs, rhs_line)))
                        } else {
                        Ok(rhs.value)
                        }}
                    },
                    _ => {
                        s.same_type_value(lhs, lhs_line, rhs, rhs_line)
                    },
                }
            },
            TypeView::Fat(target) => {
                match rhs.taipe {
                    TypeView::Array { count: _, taipe: item } => {
                        if !target.same(*item) {
                            Err(StopView::Errors(s.assign_err(lhs, lhs_line, rhs, rhs_line)))
                        } else {
                        Ok(ValueView::Cast(Box::new(rhs)))
                        }
                    },
                    _ => {
                        s.same_type_value(lhs, lhs_line, rhs, rhs_line)
                    },
                }
            },
            _ => {
                s.same_type_value(lhs, lhs_line, rhs, rhs_line)
            },
        }
        }
    }

    /// The value that is assigned where nothing is converted: it has the same type, or it is
    /// never reached.
    #[verifier::opaque]
    pub open spec fn same_type_value(
        self,
        lhs: TypeView,
        lhs_line: Span,
        rhs: ContextView,
        rhs_line: Span,
    ) -> Result<ValueView, StopView>
    {
        let s = self;
        match rhs.taipe {
            TypeView::Void => {
                Err(StopView::Errors(s.assign_err(lhs, lhs_line, rhs, rhs_line)))
            },
            taipe => {
                match lhs {
                    TypeView::Noreturn => {
                        Err(
                            StopView::Errors(
                                s.make_err(
                                    ("cannot assign to: '"@ + lhs.to_text() + "'"@),
                                    lhs_line,
                                ),
                            ),
                        )
                    },
                    _ => {
                        match taipe {
                            TypeView::Noreturn => {
                                Ok(ValueView::from_nil())
                            },
                            _ => {
                                if !lhs.same(taipe) {
                                    Err(
                                        StopView::Errors(
                                            s.assign_err(lhs, lhs_line, rhs, rhs_line),
                                        ),
                                    )
                                } else {
                                Ok(rhs.value)
                                }
                            },
                        }
                    },
                }
            },
        }
    }

    /// Gives an integer literal beside another operand the type of the other one, and two of
    /// them the type `int`.
    #[verifier::opaque]
    pub open spec fn resolve_value_promotion(
        self,
        lhs: ContextView,
        left_line: Span,
        rhs: ContextView,
        right_line: Span,
    ) -> Result<(ContextView, ContextView), StopView>
    {
        let s = self;
        if lhs.taipe.is_varint() && rhs.taipe.is_varint() {
            match s.imm_of(lhs.value) { Err(e) => Err(e), Ok(left) => {
            match s.imm_of(rhs.value) { Err(e) => Err(e), Ok(right) => {
            match s.transform_varint_to_int(left, left_line) { Err(e) => Err(e), Ok(left) => {
            match s.transform_varint_to_int(right, right_line) { Err(e) => Err(e), Ok(right) => {
            Ok(
                (
                    ContextView::make(lhs.is_lvalue, s.int_type(), ValueView::Imm(left)),
                    ContextView::make(rhs.is_lvalue, s.int_type(), ValueView::Imm(right)),
                ),
            )
            }}}}}}}}
        } else {
            if lhs.taipe.is_varint() {
                if rhs.taipe.is_integer() || rhs.taipe.is_float() {
                    match s.imm_of(lhs.value) { Err(e) => Err(e), Ok(left) => {
                    match s.transform_varint(rhs.taipe, left, left_line, None) {
                        Err(e) => Err(e), Ok(left) => {
                    Ok((ContextView::make(lhs.is_lvalue, rhs.taipe, ValueView::Imm(left)), rhs))
                    }}}}
                } else {
                    Ok((lhs, rhs))
                }
            } else {
                if rhs.taipe.is_varint() {
                    if lhs.taipe.is_integer() || lhs.taipe.is_float() {
                        match s.imm_of(rhs.value) { Err(e) => Err(e), Ok(right) => {
                        match s.transform_varint(lhs.taipe, right, right_line, None) {
                            Err(e) => Err(e), Ok(right) => {
                        let taipe = lhs.taipe;
                        Ok((lhs, ContextView::make(rhs.is_lvalue, taipe, ValueView::Imm(right))))
                        }}}}
                    } else {
                        Ok((lhs, rhs))
                    }
                } else {
                    Ok((lhs, rhs))
                }
            }
        }
    }
}

impl<'a> Analyzer<'a> {
    /// An error at a region of the current file.
    pub(crate) fn make_err(
        &self,
        msg: &str,
        line: LineInfo,
    ) -> (r: CompileError)
        requires
            self@.wf(),
        ensures
            r@ == self@.make_err(msg@, line@),
    {
        broadcast use group_analyzer;

        proof {
            reveal(AnalyzerView::make_err);
        }
        CompileError::SemError {
            file_path: self.get_current_src_path(),
            line_info: line,
            msg: msg.to_owned(),
        }
    }

    /// A warning at a region of the current file.
    pub(crate) fn make_warning(
        &self,
        msg: &str,
        line: LineInfo,
    ) -> (r: CompileError)
        requires
            self@.wf(),
        ensures
            r@ == self@.make_warning(msg@, line@),
    {
        broadcast use group_analyzer;

        proof {
            reveal(AnalyzerView::make_warning);
        }
        CompileError::SemWarning {
            file_path: self.get_current_src_path(),
            line_info: line,
            msg: msg.to_owned(),
        }
    }

    /// A note at a region of the current file.
    pub(crate) fn make_note(
        &self,
        msg: &str,
        line: LineInfo,
    ) -> (r: CompileError)
        requires
            self@.wf(),
        ensures
            r@ == self@.make_note(msg@, line@),
    {
        broadcast use group_analyzer;

        proof {
            reveal(AnalyzerView::make_note);
        }
        CompileError::SemNote {
            file_path: self.get_current_src_path(),
            line_info: line,
            msg: msg.to_owned(),
        }
    }

    /// A note without a file.
    pub(crate) fn make_note_no_path(
        &self,
        msg: &str,
    ) -> (r: CompileError)
        requires
            self@.wf(),
        ensures
            r@ == self@.make_note_no_path(msg@),
    {
        broadcast use group_analyzer;

        proof {
            reveal(AnalyzerView::make_note_no_path);
        }
        CompileError::SemNoteWithoutPath { msg: msg.to_owned() }
    }

    /// A note at a region of the given file.
    pub(crate) fn make_note_with_path(
        &self,
        msg: &str,
        file_path: String,
        line: LineInfo,
    ) -> (r: CompileError)
        requires
            self@.wf(),
        ensures
            r@ == self@.make_note_with_path(msg@, file_path@, line@),
    {
        broadcast use group_analyzer;

        proof {
            reveal(AnalyzerView::make_note_with_path);
        }
        CompileError::SemNote { file_path, line_info: line, msg: msg.to_owned() }
    }

    /// A piece of advice.
    pub(crate) fn make_help(
        &self,
        msg: &str,
    ) -> (r: CompileError)
        requires
            self@.wf(),
        ensures
            r@ == self@.make_help(msg@),
    {
        broadcast use group_analyzer;

        proof {
            reveal(AnalyzerView::make_help);
        }
        CompileError::SemHelp { msg: msg.to_owned() }
    }

    /// The immediate value that a value is.
    pub(crate) fn imm_of(
        &self,
        value: &Value,
    ) -> (r: Result<Imm, Stop>)
        requires
            self@.wf(),
        ensures
            outcome(r) == self@.imm_of(value@),
    {
        broadcast use group_analyzer;

        proof {
            reveal(AnalyzerView::imm_of);
            reveal(Context::model);
            reveal(Value::model);
        }
        match value {
            Value::Imm(imm) => {
                Ok(imm.copy())
            },
            _ => {
                Err(Stop::Unsupported("probably some analyzer bug".to_owned()))
            },
        }
    }

    /// The immediate value of a type for an integer literal.
    pub(crate) fn transform_varint(
        &self,
        lhs: &Type,
        rhs: &Imm,
        line: LineInfo,
        shown_as: Option<&str>,
    ) -> (r: Result<Imm, Stop>)
        requires
            self@.wf(),
        ensures
            outcome(r) == self@.transform_varint(lhs@, rhs@, line@, option_view(shown_as)),
        decreases lhs,
    {
        broadcast use group_analyzer;

        proof {
            reveal(AnalyzerView::transform_varint);
        }
        match rhs {
            Imm::VarInt(num) => {
                match lhs {
                    Type::VarInt => {
                        Ok(rhs.copy())
                    },
                    Type::Float32 => {
                        Ok(Imm::Float32(Float::FromInt(num.copy())))
                    },
                    Type::Float64 => {
                        Ok(Imm::Float64(Float::FromInt(num.copy())))
                    },
                    Type::Const(inner) => {
                        self.transform_varint(inner, rhs, line, shown_as)
                    },
                    _ => {
                        let Some(kind) = lhs.int_kind() else {
                            return Err(
                                Stop::Unsupported("invalid type for varint conversion".to_owned()),
                            );
                        };
                        let Some(imm) = Imm::of_int(kind, num) else {
                            match shown_as {
                                Some(name) => {
                                    return Err(
                                        Stop::Errors(
                                            self.make_err(
                                                &join2(
                                                    &join2(
                                                        &join2(
                                                            &join2("'", &name),
                                                            "' cannot hold this value: '",
                                                        ),
                                                        &rhs.to_text(),
                                                    ),
                                                    "'",
                                                ),
                                                line,
                                            ),
                                        ),
                                    );
                                },
                                None => {
                                    return Err(
                                        Stop::Errors(
                                            self.make_err(
                                                &join2(
                                                    &join2(
                                                        &join2(
                                                            &join2("'", &lhs.to_text()),
                                                            "' cannot hold this value: '",
                                                        ),
                                                        &rhs.to_text(),
                                                    ),
                                                    "'",
                                                ),
                                                line,
                                            ),
                                        ),
                                    );
                                },
                            }
                        };
                        Ok(imm)
                    },
                }
            },
            _ => {
                Err(Stop::Unsupported("not a valid conversion".to_owned()))
            },
        }
    }

    /// The immediate value of type `int` for an integer literal.
    pub(crate) fn transform_varint_to_int(
        &self,
        value: &Imm,
        line: LineInfo,
    ) -> (r: Result<Imm, Stop>)
        requires
            self@.wf(),
        ensures
            outcome(r) == self@.transform_varint_to_int(value@, line@),
    {
        broadcast use group_analyzer;

        proof {
            reveal(AnalyzerView::transform_varint_to_int);
        }
        let taipe = self.int_type();
        self.transform_varint(&taipe, value, line, Some("int"))
    }

    /// The immediate value of type `usize` for an integer literal.
    pub(crate) fn transform_varint_to_usize(
        &self,
        value: &Imm,
        line: LineInfo,
    ) -> (r: Result<Imm, Stop>)
        requires
            self@.wf(),
        ensures
            outcome(r) == self@.transform_varint_to_usize(value@, line@),
    {
        broadcast use group_analyzer;

        proof {
            reveal(AnalyzerView::transform_varint_to_usize);
        }
        let taipe = self.usize_type();
        self.transform_varint(&taipe, value, line, Some("usize"))
    }

    /// The immediate value of a type for another immediate value that it can hold without loss.
    pub(crate) fn transform_imm(
        &self,
        lhs: &Type,
        rhs: &Imm,
        line: LineInfo,
        shown_as: Option<&str>,
    ) -> (r: Result<Imm, Stop>)
        requires
            self@.wf(),
        ensures
            outcome(r) == self@.transform_imm(lhs@, rhs@, line@, option_view(shown_as)),
        decreases lhs,
    {
        broadcast use group_analyzer;

        proof {
            reveal(AnalyzerView::transform_imm);
        }
        match lhs {
            Type::Const(inner) => {
                self.transform_imm(inner, rhs, line, shown_as)
            },
            _ => {
                match rhs {
                    Imm::VarInt(_) => {
                        self.transform_varint(lhs, rhs, line, shown_as)
                    },
                    _ => {
                        let Some(to) = lhs.int_kind() else {
                            return Err(
                                Stop::Unsupported("invalid type for value conversion".to_owned()),
                            );
                        };
                        let Some(from) = rhs.int_kind() else {
                            return Err(
                                Stop::Unsupported("invalid type for value conversion".to_owned()),
                            );
                        };
                        if kind_holds(to, from) {
                            Ok(rhs.cast_to(to))
                        } else {
                            Err(Stop::Unsupported("invalid type for value conversion".to_owned()))
                        }
                    },
                }
            },
        }
    }

    /// The immediate value of type `usize` for another immediate value.
    pub(crate) fn transform_imm_to_usize(
        &self,
        value: &Imm,
        line: LineInfo,
    ) -> (r: Result<Imm, Stop>)
        requires
            self@.wf(),
        ensures
            outcome(r) == self@.transform_imm_to_usize(value@, line@),
    {
        broadcast use group_analyzer;

        proof {
            reveal(AnalyzerView::transform_imm_to_usize);
        }
        let taipe = self.usize_type();
        self.transform_imm(&taipe, value, line, Some("usize"))
    }

    /// A size as a value of the program.
    pub(crate) fn usize2usize(
        &self,
        size: usize,
        line: LineInfo,
    ) -> (r: Result<Context, Stop>)
        requires
            self@.wf(),
        ensures
            outcome(r) == self@.usize2usize(size, line@),
    {
        broadcast use group_analyzer;

        proof {
            reveal(AnalyzerView::usize2usize);
            reveal(Context::model);
            reveal(Value::model);
        }
        let taipe = self.usize_type();
        let Some(kind) = taipe.int_kind() else {
            return Err(Stop::Unsupported("invalid type for Analyzer::type_usize".to_owned()));
        };
        let Some(imm) = Imm::of_size(kind, size) else {
            return Err(
                Stop::Errors(
                    self.make_err(
                        &join2(&join2("'usize' cannot hold this value: '", &size_text(size)), "'"),
                        line,
                    ),
                ),
            );
        };
        Ok(Context::make(false, taipe, Value::Imm(imm)))
    }

    /// The value of a type that has all its parts zero. The message of an error calls it the
    /// `what` value.
    pub(crate) fn get_plain_value(
        &self,
        top: &Type,
        cur: &Type,
        line: LineInfo,
        what: &str,
    ) -> (r: Result<Context, Stop>)
        requires
            self@.wf(),
        ensures
            outcome(r) == self@.get_plain_value(top@, cur@, line@, what@),
        decreases cur,
    {
        broadcast use group_analyzer;

        proof {
            reveal(AnalyzerView::get_plain_value);
            reveal(AnalyzerView::more_plain_values);
            reveal(Context::model);
            reveal(Value::model);
        }
        match cur {
            Type::Bool => {
                Ok(Context::from_imm(Type::Bool, Imm::Bool(false)))
            },
            Type::Char => {
                Ok(Context::from_imm(Type::Char, Imm::Char('\0')))
            },
            Type::VarInt => {
                Err(Stop::Unsupported("probably some analyzer bug".to_owned()))
            },
            Type::Float32 => {
                Ok(Context::from_imm(Type::Float32, Imm::Float32(Float::FromUnsigned(0))))
            },
            Type::Float64 => {
                Ok(Context::from_imm(Type::Float64, Imm::Float64(Float::FromUnsigned(0))))
            },
            Type::Const(inner) => {
                let ctx = match self.get_plain_value(top, inner, line, what) {
                    Ok(v) => v,
                    Err(e) => {
                        return Err(e);
                    },
                };
                Ok(ctx.add_const())
            },
            Type::Pointer(_) => {
                Err(Stop::Unsupported(join2(&join2("pointer ", &what), " value")))
            },
            Type::Fat(_) => {
                Err(Stop::Unsupported(join2(&join2("fat pointer ", &what), " value")))
            },
            Type::Array { count, taipe } => {
                if *count == 0 {
                    return Ok(Context::make(false, cur.copy(), Value::Array(Vec::new())));
                }
                let item = match self.get_plain_value(top, taipe, line, what) {
                    Ok(v) => v,
                    Err(e) => {
                        return Err(e);
                    },
                };
                let values = Value::repeat(&item.value, *count);
                Ok(Context::make(false, cur.copy(), Value::Array(values)))
            },
            Type::Tuple(items) => {
                let values = match self.more_plain_values(top, items, line, what, Vec::new()) {
                    Ok(v) => v,
                    Err(e) => {
                        return Err(e);
                    },
                };
                Ok(Context::make(false, cur.copy(), values))
            },
            _ => {
                match cur.int_kind() {
                    Some(kind) => {
                        let Some(imm) = Imm::of_size(kind, 0) else {
                            return Err(Stop::Unsupported("probably some analyzer bug".to_owned()));
                        };
                        Ok(Context::from_imm(cur.copy(), imm))
                    },
                    None => {
                        Err(
                            Stop::Errors(
                                CompileError::pair(
                                    self.make_err(
                                        &join2(
                                            &join2(
                                                &join2(
                                                    &join2("type does not have a ", &what),
                                                    " value: '",
                                                ),
                                                &top.to_text(),
                                            ),
                                            "'",
                                        ),
                                        line,
                                    ),
                                    self.make_note_no_path(
                                        &join2(
                                            &join2(
                                                &join2(
                                                    &join2(
                                                        "error occured because this type does not have a ",
                                                        &what,
                                                    ),
                                                    " value: '",
                                                ),
                                                &cur.to_text(),
                                            ),
                                            "'",
                                        ),
                                    ),
                                ),
                            ),
                        )
                    },
                }
            },
        }
    }

    /// The tuple of the given values and of the plain values of the remaining types.
    #[verifier::loop_isolation(false)]
    pub(crate) fn more_plain_values(
        &self,
        top: &Type,
        items: &Vec<Type>,
        line: LineInfo,
        what: &str,
        values: Vec<Value>,
    ) -> (r: Result<Value, Stop>)
        requires
            self@.wf(),
        ensures
            outcome(r) == self@.more_plain_values(
                top@,
                type_models(items@),
                line@,
                what@,
                value_models(values@),
                0,
            ),
        decreases items,
    {
        broadcast use group_analyzer;

        proof {
            reveal(AnalyzerView::more_plain_values);
            reveal(AnalyzerView::get_plain_value);
            reveal(Context::model);
            reveal(Value::model);
        }
        let ghost goal = self@.more_plain_values(
            top@,
            type_models(items@),
            line@,
            what@,
            value_models(values@),
            0,
        );
        let mut values: Vec<Value> = values;
        let mut i: usize = 0;
        while i < items.len()
            invariant
                i <= items@.len(),
                goal == self@.more_plain_values(
                    top@,
                    type_models(items@),
                    line@,
                    what@,
                    value_models(values@),
                    i as int,
                ),
                self@.wf(),
            decreases items@.len() - i,
        {
            proof {
                reveal(AnalyzerView::more_plain_values);
                reveal(AnalyzerView::get_plain_value);
                reveal(Context::model);
                reveal(Value::model);
            }
            proof {
                assert(decreases_to!(items => items@[i as int]));
            }
            let item = match self.get_plain_value(top, &items[i], line, what) {
                Ok(v) => v,
                Err(e) => {
                    return Err(e);
                },
            };
            values.push(item.value);
            i = i + 1;
        }
        Ok(Value::Tuple(values))
    }

    /// The default value of a type.
    pub(crate) fn get_default_value(
        &self,
        taipe: &Type,
        line: LineInfo,
    ) -> (r: Result<Context, Stop>)
        requires
            self@.wf(),
        ensures
            outcome(r) == self@.get_default_value(taipe@, line@),
    {
        broadcast use group_analyzer;

        proof {
            reveal(AnalyzerView::get_default_value);
        }
        self.get_plain_value(taipe, taipe, line, "default")
    }

    /// The zero value of a type.
    pub(crate) fn get_zero_value(
        &self,
        taipe: &Type,
        line: LineInfo,
    ) -> (r: Result<Context, Stop>)
        requires
            self@.wf(),
        ensures
            outcome(r) == self@.get_zero_value(taipe@, line@),
    {
        broadcast use group_analyzer;

        proof {
            reveal(AnalyzerView::get_zero_value);
        }
        self.get_plain_value(taipe, taipe, line, "zero")
    }

    /// Whether values of a type can be cast to another type.
    pub(crate) fn is_castable(
        &self,
        from: &Type,
        to: &Type,
    ) -> (r: bool)
        requires
            self@.wf(),
        ensures
            r == self@.is_castable(from@, to@),
    {
        broadcast use group_analyzer;

        proof {
            reveal(AnalyzerView::is_castable);
        }
        if from.is_integer() && to.is_integer() {
            true
        } else if from.is_integer() && to.is_float() {
            true
        } else if from.is_float() && to.is_integer() {
            true
        } else if from.is_array() && to.is_fat_ptr() {
            match from.remove_const() {
                Type::Array { count: _, taipe: item } => {
                    match to.remove_const() {
                        Type::Fat(target) => {
                            (*item).same(&target)
                        },
                        _ => {
                            false
                        },
                    }
                },
                _ => {
                    false
                },
            }
        } else {
            false
        }
    }

    /// Gives an integer literal the type that it is assigned to, or `int` where there is none.
    pub(crate) fn settle_varint(
        &self,
        lhs: &Option<(Type, LineInfo)>,
        rhs: Context,
        line: LineInfo,
    ) -> (r: Result<Context, Stop>)
        requires
            self@.wf(),
        ensures
            outcome(r) == self@.settle_varint(option_view(*lhs), rhs@, line@),
    {
        broadcast use group_analyzer;

        proof {
            reveal(AnalyzerView::settle_varint);
            reveal(Context::model);
            reveal(Value::model);
        }
        if !rhs.taipe.is_varint() {
            return Ok(rhs);
        }
        match lhs {
            Some((taipe, _)) => {
                if taipe.is_integer() && !taipe.is_varint() {
                    let imm = match self.imm_of(&rhs.value) {
                        Ok(v) => v,
                        Err(e) => {
                            return Err(e);
                        },
                    };
                    let value = match self.transform_varint(taipe, &imm, line, None) {
                        Ok(v) => v,
                        Err(e) => {
                            return Err(e);
                        },
                    };
                    Ok(Context::make(rhs.is_lvalue, taipe.copy(), Value::Imm(value)))
                } else {
                    Ok(rhs)
                }
            },
            None => {
                let imm = match self.imm_of(&rhs.value) {
                    Ok(v) => v,
                    Err(e) => {
                        return Err(e);
                    },
                };
                let value = match self.transform_varint_to_int(&imm, line) {
                    Ok(v) => v,
                    Err(e) => {
                        return Err(e);
                    },
                };
                Ok(Context::make(rhs.is_lvalue, self.int_type(), Value::Imm(value)))
            },
        }
    }

    /// Checks an assignment and gives what is assigned. In a declaration, `eq_token` is what
    /// stands between the type and the value; in an assignment there is none.
    pub(crate) fn resolve_assign(
        &self,
        lhs: Option<(Type, LineInfo)>,
        eq_token: Option<&Token>,
        rhs: Option<(Context, LineInfo)>,
    ) -> (r: Result<Context, Stop>)
        requires
            self@.wf(),
        ensures
            outcome(r) == self@.resolve_assign(
                option_view(lhs),
                option_view(eq_token),
                option_view(rhs),
            ),
    {
        broadcast use group_analyzer;

        proof {
            reveal(AnalyzerView::resolve_assign);
            reveal(Context::model);
            reveal(Value::model);
        }
        match rhs {
            Some((ctx, line)) => {
                self.assign_value(lhs, eq_token, ctx, line)
            },
            None => {
                match lhs {
                    Some((taipe, _)) => {
                        if eq_token.is_some() {
                            return Err(Stop::Unsupported("a value is missing".to_owned()));
                        }
                        Ok(Context::make(false, taipe, Value::from_nil()))
                    },
                    None => {
                        Err(
                            Stop::Unsupported(
                                "either type or value information should be present".to_owned(),
                            ),
                        )
                    },
                }
            },
        }
    }

    /// Checks the assignment of a value.
    pub(crate) fn assign_value(
        &self,
        lhs: Option<(Type, LineInfo)>,
        eq_token: Option<&Token>,
        rhs: Context,
        rhs_line: LineInfo,
    ) -> (r: Result<Context, Stop>)
        requires
            self@.wf(),
        ensures
            outcome(r) == self@.assign_value(
                option_view(lhs),
                option_view(eq_token),
                rhs@,
                rhs_line@,
            ),
    {
        broadcast use group_analyzer;

        proof {
            reveal(AnalyzerView::assign_value);
            reveal(Context::model);
            reveal(Value::model);
        }
        if rhs.taipe.is_void() {
            return Err(
                Stop::Errors(
                    self.make_err(
                        &join2(&join2("cannot assign value of type '", &rhs.to_text()), "'"),
                        rhs_line,
                    ),
                ),
            );
        }
        let rhs = match self.settle_varint(&lhs, rhs, rhs_line) {
            Ok(v) => v,
            Err(e) => {
                return Err(e);
            },
        };
        match lhs {
            None => {
                let Some(token) = eq_token else {
                    return Err(Stop::Unsupported("probably some analyzer bug".to_owned()));
                };
                match token.kind {
                    TokenKind::Colon => {
                        Ok(Context::make(false, rhs.taipe.add_const(), rhs.value))
                    },
                    TokenKind::Equal => {
                        let taipe = rhs.taipe.remove_const();
                        if taipe.is_const() {
                            return Err(
                                Stop::Errors(self.make_err("expected ':'", token.line_info)),
                            );
                        }
                        Ok(Context::make(false, taipe, rhs.value))
                    },
                    _ => {
                        Err(Stop::Unsupported("probably some parser bug".to_owned()))
                    },
                }
            },
            Some((taipe, lhs_line)) => {
                match eq_token {
                    None => {
                        self.resolve_implicit_cast(taipe, lhs_line, rhs, rhs_line, false)
                    },
                    Some(token) => {
                        match token.kind {
                            TokenKind::Colon => {
                                self.resolve_implicit_cast(taipe, lhs_line, rhs, rhs_line, true)
                            },
                            TokenKind::Equal => {
                                if taipe.is_const() {
                                    return Err(
                                        Stop::Errors(
                                            self.make_err("expected ':'", token.line_info),
                                        ),
                                    );
                                }
                                self.resolve_implicit_cast(taipe, lhs_line, rhs, rhs_line, false)
                            },
                            _ => {
                                Err(Stop::Unsupported("probably some parser bug".to_owned()))
                            },
                        }
                    },
                }
            },
        }
    }

    /// Checks that a value has the type that it is assigned to, and converts it where that goes
    /// without saying. The first assignment to a constant is allowed.
    pub(crate) fn resolve_implicit_cast(
        &self,
        lhs: Type,
        lhs_line: LineInfo,
        rhs: Context,
        rhs_line: LineInfo,
        allow_const: bool,
    ) -> (r: Result<Context, Stop>)
        requires
            self@.wf(),
        ensures
            outcome(r) == self@.resolve_implicit_cast(
                lhs@,
                lhs_line@,
                rhs@,
                rhs_line@,
                allow_const,
            ),
    {
        broadcast use group_analyzer;

        proof {
            reveal(AnalyzerView::resolve_implicit_cast);
            reveal(Context::model);
            reveal(Value::model);
        }
        let rhs = Context::make(rhs.is_lvalue, rhs.taipe.remove_const(), rhs.value);
        let lhs = if allow_const { lhs.remove_const() } else { lhs };
        let value = match self.implicit_value(&lhs, lhs_line, rhs, rhs_line, allow_const) {
            Ok(v) => v,
            Err(e) => {
                return Err(e);
            },
        };
        let lhs = if allow_const { lhs.add_const() } else { lhs };
        Ok(Context::make(false, lhs, value))
    }

    /// The reports that a value cannot be assigned.
    pub(crate) fn assign_err(
        &self,
        lhs: &Type,
        lhs_line: LineInfo,
        rhs: &Context,
        rhs_line: LineInfo,
    ) -> (r: CompileError)
        requires
            self@.wf(),
        ensures
            r@ == self@.assign_err(lhs@, lhs_line@, rhs@, rhs_line@),
    {
        broadcast use group_analyzer;

        proof {
            reveal(AnalyzerView::assign_err);
        }
        CompileError::pair(
            self.make_err(
                &join2(&join2("cannot assign value of type '", &rhs.to_text()), "'"),
                rhs_line,
            ),
            self.make_note(&join2(&join2("cannot assign to '", &lhs.to_text()), "'"), lhs_line),
        )
    }

    /// The value that is assigned, converted where that goes without saying.
    pub(crate) fn implicit_value(
        &self,
        lhs: &Type,
        lhs_line: LineInfo,
        rhs: Context,
        rhs_line: LineInfo,
        allow_const: bool,
    ) -> (r: Result<Value, Stop>)
        requires
            self@.wf(),
        ensures
            outcome(r) == self@.implicit_value(lhs@, lhs_line@, rhs@, rhs_line@, allow_const),
    {
        broadcast use group_analyzer;

        proof {
            reveal(AnalyzerView::implicit_value);
            reveal(Context::model);
            reveal(Value::model);
        }
        if lhs.widens_from(&rhs.taipe) {
            return Ok(Value::Cast(Box::new(rhs)));
        }
        match lhs {
            Type::Float32 => {
                match &rhs.taipe {
                    Type::VarInt => {
                        let imm = match self.imm_of(&rhs.value) {
                            Ok(v) => v,
                            Err(e) => {
                                return Err(e);
                            },
                        };
                        match imm {
                            Imm::VarInt(num) => {
                                Ok(Value::Imm(Imm::Float32(Float::FromInt(num))))
                            },
                            _ => {
                                Err(Stop::Unsupported("probably some analyzer bug".to_owned()))
                            },
                        }
                    },
                    Type::Float64 => {
                        Ok(Value::Cast(Box::new(rhs)))
                    },
                    _ => {
                        self.same_type_value(lhs, lhs_line, rhs, rhs_line)
                    },
                }
            },
            Type::Float64 => {
                match &rhs.taipe {
                    Type::VarInt => {
                        let imm = match self.imm_of(&rhs.value) {
                            Ok(v) => v,
                            Err(e) => {
                                return Err(e);
                            },
                        };
                        match imm {
                            Imm::VarInt(num) => {
                                Ok(Value::Imm(Imm::Float64(Float::FromInt(num))))
                            },
                            _ => {
                                Err(Stop::Unsupported("probably some analyzer bug".to_owned()))
                            },
                        }
                    },
                    _ => {
                        self.same_type_value(lhs, lhs_line, rhs, rhs_line)
                    },
                }
            },
            Type::Const(_) => {
                if !allow_const {
                    return Err(
                        Stop::Errors(
                            CompileError::pair(
                                self.make_err(
                                    &join2(
                                        &join2(
                                            "cannot assign to a constant of type: '",
                                            &lhs.to_text(),
                                        ),
                                        "'",
                                    ),
                                    lhs_line,
                                ),
                                self.make_note(
                                    &join2(&join2("type of value is '", &rhs.to_text()), "'"),
                                    rhs_line,
                                ),
                            ),
                        ),
                    );
                }
                Err(Stop::Unsupported("not supposed to happen".to_owned()))
            },
            Type::Pointer(target) => {
                match &rhs.taipe {
                    Type::Pointer(source) => {
                        if !target.is_const() && source.is_const() {
                            return Err(
                                Stop::Errors(self.assign_err(lhs, lhs_line, &rhs, rhs_line)),
                            );
                        }
                        if !target.remove_const().same(&source.remove_const()) {
                            return Err(
                                Stop::Errors(self.assign_err(lhs, lhs_line, &rhs, rhs_line)),
                            );
                        }
                        Ok(rhs.value)
                    },
                    _ => {
                        self.same_type_value(lhs, lhs_line, rhs, rhs_line)
                    },
                }
            },
            Type::Fat(target) => {
                match &rhs.taipe {
                    Type::Array { count: _, taipe: item } => {
                        if !target.same(item) {
                            return Err(
                                Stop::Errors(self.assign_err(lhs, lhs_line, &rhs, rhs_line)),
                            );
                        }
                        Ok(Value::Cast(Box::new(rhs)))
                    },
                    _ => {
                        self.same_type_value(lhs, lhs_line, rhs, rhs_line)
                    },
                }
            },
            _ => {
                self.same_type_value(lhs, lhs_line, rhs, rhs_line)
            },
        }
    }

    /// The value that is assigned where nothing is converted: it has the same type, or it is
    /// never reached.
    pub(crate) fn same_type_value(
        &self,
        lhs: &Type,
        lhs_line: LineInfo,
        rhs: Context,
        rhs_line: LineInfo,
    ) -> (r: Result<Value, Stop>)
        requires
            self@.wf(),
        ensures
            outcome(r) == self@.same_type_value(lhs@, lhs_line@, rhs@, rhs_line@),
    {
        broadcast use group_analyzer;

        proof {
            reveal(AnalyzerView::same_type_value);
            reveal(Context::model);
            reveal(Value::model);
        }
        match &rhs.taipe {
            Type::Void => {
                Err(Stop::Errors(self.assign_err(lhs, lhs_line, &rhs, rhs_line)))
            },
            taipe => {
                match lhs {
                    Type::Noreturn => {
                        Err(
                            Stop::Errors(
                                self.make_err(
                                    &join2(&join2("cannot assign to: '", &lhs.to_text()), "'"),
                                    lhs_line,
                                ),
                            ),
                        )
                    },
                    _ => {
                        match taipe {
                            Type::Noreturn => {
                                Ok(Value::from_nil())
                            },
                            _ => {
                                if !lhs.same(taipe) {
                                    return Err(
                                        Stop::Errors(
                                            self.assign_err(lhs, lhs_line, &rhs, rhs_line),
                                        ),
                                    );
                                }
                                Ok(rhs.value)
                            },
                        }
                    },
                }
            },
        }
    }

    /// Gives an integer literal beside another operand the type of the other one, and two of
    /// them the type `int`.
    pub(crate) fn resolve_value_promotion(
        &self,
        lhs: Context,
        left_line: LineInfo,
        rhs: Context,
        right_line: LineInfo,
    ) -> (r: Result<(Context, Context), Stop>)
        requires
            self@.wf(),
        ensures
            outcome(r) == self@.resolve_value_promotion(lhs@, left_line@, rhs@, right_line@),
    {
        broadcast use group_analyzer;

        proof {
            reveal(AnalyzerView::resolve_value_promotion);
            reveal(Context::model);
            reveal(Value::model);
        }
        if lhs.taipe.is_varint() && rhs.taipe.is_varint() {
            let left = match self.imm_of(&lhs.value) {
                Ok(v) => v,
                Err(e) => {
                    return Err(e);
                },
            };
            let right = match self.imm_of(&rhs.value) {
                Ok(v) => v,
                Err(e) => {
                    return Err(e);
                },
            };
            let left = match self.transform_varint_to_int(&left, left_line) {
                Ok(v) => v,
                Err(e) => {
                    return Err(e);
                },
            };
            let right = match self.transform_varint_to_int(&right, right_line) {
                Ok(v) => v,
                Err(e) => {
                    return Err(e);
                },
            };
            Ok(
                (
                    Context::make(lhs.is_lvalue, self.int_type(), Value::Imm(left)),
                    Context::make(rhs.is_lvalue, self.int_type(), Value::Imm(right)),
                ),
            )
        } else if lhs.taipe.is_varint() {
            if rhs.taipe.is_integer() || rhs.taipe.is_float() {
                let left = match self.imm_of(&lhs.value) {
                    Ok(v) => v,
                    Err(e) => {
                        return Err(e);
                    },
                };
                let left = match self.transform_varint(&rhs.taipe, &left, left_line, None) {
                    Ok(v) => v,
                    Err(e) => {
                        return Err(e);
                    },
                };
                Ok((Context::make(lhs.is_lvalue, rhs.taipe.copy(), Value::Imm(left)), rhs))
            } else {
                Ok((lhs, rhs))
            }
        } else if rhs.taipe.is_varint() {
            if lhs.taipe.is_integer() || lhs.taipe.is_float() {
                let right = match self.imm_of(&rhs.value) {
                    Ok(v) => v,
                    Err(e) => {
                        return Err(e);
                    },
                };
                let right = match self.transform_varint(&lhs.taipe, &right, right_line, None) {
                    Ok(v) => v,
                    Err(e) => {
                        return Err(e);
                    },
                };
                let taipe = lhs.taipe.copy();
                Ok((lhs, Context::make(rhs.is_lvalue, taipe, Value::Imm(right))))
            } else {
                Ok((lhs, rhs))
            }
        } else {
            Ok((lhs, rhs))
        }
    }
}

} // verus!
