use vstd::prelude::*;

use crate::analyzer::{group_analyzer, Analyzer, AnalyzerView};
use crate::common::{outcome, CompileError, ErrorView, LineInfo, Span, Stop, StopView};
use crate::context::{Context, ContextView, Imm, ImmView, Type, TypeView, Value, ValueView};
use crate::text::join2;
use crate::token::{Token, TokenKind, TokenView};

verus! {

impl AnalyzerView {
    /// The report that an operator cannot be applied to two operands.
    #[verifier::opaque]
    pub open spec fn binary_err(
        self,
        op: TokenView,
        lhs: ContextView,
        rhs: ContextView,
        line: Span,
    ) -> ErrorView
    {
        let s = self;
        s.make_err(
            (
                "cannot apply '"@
                    + op.text
                    + "' operator on values of types '"@
                    + lhs.taipe.to_text()
                    + "' and '"@
                    + rhs.taipe.to_text()
                    + "'"@
            ),
            line,
        )
    }

    /// The instruction for a binary operator.
    #[verifier::opaque]
    pub open spec fn binary_value(
        self,
        op: TokenKind,
        line: Span,
        lhs: ContextView,
        rhs: ContextView,
    ) -> Result<ValueView, StopView>
    {
        match op {
            TokenKind::And => {
                Ok(ValueView::LogicAnd { line_info: line, lhs: Box::new(lhs), rhs: Box::new(rhs) })
            },
            TokenKind::Or => {
                Ok(ValueView::LogicOr { line_info: line, lhs: Box::new(lhs), rhs: Box::new(rhs) })
            },
            TokenKind::EqEq => {
                Ok(ValueView::Eq { line_info: line, lhs: Box::new(lhs), rhs: Box::new(rhs) })
            },
            TokenKind::LAngle => {
                Ok(ValueView::Lt { line_info: line, lhs: Box::new(lhs), rhs: Box::new(rhs) })
            },
            TokenKind::RAngle => {
                Ok(ValueView::Gt { line_info: line, lhs: Box::new(lhs), rhs: Box::new(rhs) })
            },
            TokenKind::LessEq => {
                Ok(ValueView::Le { line_info: line, lhs: Box::new(lhs), rhs: Box::new(rhs) })
            },
            TokenKind::GreaterEq => {
                Ok(ValueView::Ge { line_info: line, lhs: Box::new(lhs), rhs: Box::new(rhs) })
            },
            TokenKind::NotEq => {
                Ok(ValueView::Ne { line_info: line, lhs: Box::new(lhs), rhs: Box::new(rhs) })
            },
            TokenKind::Ampersand => {
                Ok(ValueView::BitAnd { line_info: line, lhs: Box::new(lhs), rhs: Box::new(rhs) })
            },
            TokenKind::Caret => {
                Ok(ValueView::BitXor { line_info: line, lhs: Box::new(lhs), rhs: Box::new(rhs) })
            },
            TokenKind::Pipe => {
                Ok(ValueView::BitOr { line_info: line, lhs: Box::new(lhs), rhs: Box::new(rhs) })
            },
            TokenKind::ShiftLeft => {
                Ok(ValueView::Shl { line_info: line, lhs: Box::new(lhs), rhs: Box::new(rhs) })
            },
            TokenKind::ShiftRight => {
                Ok(ValueView::Shr { line_info: line, lhs: Box::new(lhs), rhs: Box::new(rhs) })
            },
            TokenKind::Plus => {
                Ok(ValueView::Add { line_info: line, lhs: Box::new(lhs), rhs: Box::new(rhs) })
            },
            TokenKind::Minus => {
                Ok(ValueView::Sub { line_info: line, lhs: Box::new(lhs), rhs: Box::new(rhs) })
            },
            TokenKind::Star => {
                Ok(ValueView::Mul { line_info: line, lhs: Box::new(lhs), rhs: Box::new(rhs) })
            },
            TokenKind::Slash => {
                Ok(ValueView::Div { line_info: line, lhs: Box::new(lhs), rhs: Box::new(rhs) })
            },
            TokenKind::Percent => {
                Ok(ValueView::Rem { line_info: line, lhs: Box::new(lhs), rhs: Box::new(rhs) })
            },
            _ => {
                Err(StopView::Unsupported("probably some analyzer bug"@))
            },
        }
    }

    /// The result of a binary operator on two operands.
    #[verifier::opaque]
    pub open spec fn binary_result(
        self,
        op: TokenView,
        lhs: ContextView,
        left_line: Span,
        rhs: ContextView,
        right_line: Span,
        line: Span,
    ) -> Result<ContextView, StopView>
    {
        let s = self;
        match op.kind {
            TokenKind::And | TokenKind::Or => {
                if !lhs.taipe.is_bool() || !rhs.taipe.is_bool() {
                    Err(StopView::Errors(s.binary_err(op, lhs, rhs, line)))
                } else {
                match s.binary_value(op.kind, line, lhs, rhs) { Err(e) => Err(e), Ok(value) => {
                Ok(ContextView::make(false, TypeView::Bool, value))
                }}}
            },
            TokenKind::LAngle
            | TokenKind::LessEq
            | TokenKind::EqEq
            | TokenKind::NotEq
            | TokenKind::GreaterEq
            | TokenKind::RAngle => {
                match s.resolve_value_promotion(lhs, left_line, rhs, right_line) {
                    Err(e) => Err(e), Ok((lhs, rhs)) => {
                s.relational_result(op, lhs, rhs, line)
                }}
            },
            TokenKind::Ampersand | TokenKind::Caret | TokenKind::Pipe | TokenKind::Percent => {
                if !lhs.taipe.is_integer() || !rhs.taipe.is_integer() {
                    Err(StopView::Errors(s.binary_err(op, lhs, rhs, line)))
                } else {
                match s.resolve_value_promotion(lhs, left_line, rhs, right_line) {
                    Err(e) => Err(e), Ok((lhs, rhs)) => {
                s.arithmetic_result(op, lhs, rhs, line)
                }}}
            },
            TokenKind::ShiftLeft | TokenKind::ShiftRight => {
                if !lhs.taipe.is_integer() {
                    Err(StopView::Errors(s.binary_err(op, lhs, rhs, line)))
                } else {
                if !rhs.taipe.is_varint() && !rhs.taipe.is_unsigned_integer() {
                    Err(
                        StopView::Errors(
                            s.make_err(
                                (
                                    "expected unsigned integer but got '"@
                                        + rhs.taipe.to_text()
                                        + "'"@
                                ),
                                right_line,
                            ),
                        ),
                    )
                } else {
                match s.settle_shifted(lhs, right_line) { Err(e) => Err(e), Ok(lhs) => {
                match s.settle_shift(rhs, right_line) { Err(e) => Err(e), Ok(rhs) => {
                let taipe = lhs.taipe.remove_const();
                match s.binary_value(op.kind, line, lhs, rhs) { Err(e) => Err(e), Ok(value) => {
                Ok(ContextView::make(false, taipe, value))
                }}}}}}}}
            },
            TokenKind::Plus | TokenKind::Minus => {
                if !(lhs.taipe.is_integer() || lhs.taipe.is_float())
                    || !(rhs.taipe.is_integer() || rhs.taipe.is_float()) {
                    Err(StopView::Errors(s.binary_err(op, lhs, rhs, line)))
                } else {
                match s.resolve_value_promotion(lhs, left_line, rhs, right_line) {
                    Err(e) => Err(e), Ok((lhs, rhs)) => {
                s.arithmetic_result(op, lhs, rhs, line)
                }}}
            },
            TokenKind::Star | TokenKind::Slash => {
                if !(lhs.taipe.is_integer() || lhs.taipe.is_float())
                    || !(rhs.taipe.is_integer() || rhs.taipe.is_float()) {
                    Err(StopView::Errors(s.binary_err(op, lhs, rhs, line)))
                } else {
                match s.resolve_value_promotion(lhs, left_line, rhs, right_line) {
                    Err(e) => Err(e), Ok((lhs, rhs)) => {
                s.arithmetic_result(op, lhs, rhs, line)
                }}}
            },
            _ => {
                Err(StopView::Errors(s.binary_err(op, lhs, rhs, line)))
            },
        }
    }

    /// The result of an operator on two operands of the same type, which is the type of the
    /// result.
    #[verifier::opaque]
    pub open spec fn arithmetic_result(
        self,
        op: TokenView,
        lhs: ContextView,
        rhs: ContextView,
        line: Span,
    ) -> Result<ContextView, StopView>
    {
        let s = self;
        if !lhs.taipe.remove_const().same(rhs.taipe.remove_const()) {
            Err(StopView::Errors(s.binary_err(op, lhs, rhs, line)))
        } else {
        let taipe = lhs.taipe.remove_const();
        match s.binary_value(op.kind, line, lhs, rhs) { Err(e) => Err(e), Ok(value) => {
        Ok(ContextView::make(false, taipe, value))
        }}}
    }

    /// Whether values of a type can be compared by an instruction.
    #[verifier::opaque]
    pub open spec fn is_comparable(
        self,
        taipe: TypeView,
    ) -> bool
    {
        match taipe {
            TypeView::Bool
            | TypeView::Char
            | TypeView::Pointer(_)
            | TypeView::Float32
            | TypeView::Float64 => {
                true
            },
            _ => {
                match taipe.int_kind() {
                    Some(_) => {
                        true
                    },
                    None => {
                        false
                    },
                }
            },
        }
    }

    /// The type that a value of the type of types is.
    #[verifier::opaque]
    pub open spec fn type_value(
        self,
        value: ValueView,
    ) -> Result<TypeView, StopView>
    {
        match value {
            ValueView::Imm(ImmView::Type(taipe)) => {
                Ok(taipe)
            },
            _ => {
                Err(StopView::Unsupported("probably some analyzer bug"@))
            },
        }
    }

    /// What a comparison of two types says. Types are not ordered: they are the same or not.
    #[verifier::opaque]
    pub open spec fn types_compare(
        self,
        op: TokenKind,
        same: bool,
    ) -> bool
    {
        match op {
            TokenKind::EqEq | TokenKind::LessEq | TokenKind::GreaterEq => {
                same
            },
            TokenKind::NotEq => {
                !same
            },
            _ => {
                false
            },
        }
    }

    /// The result of the comparison of two operands.
    #[verifier::opaque]
    pub open spec fn relational_result(
        self,
        op: TokenView,
        lhs: ContextView,
        rhs: ContextView,
        line: Span,
    ) -> Result<ContextView, StopView>
    {
        let s = self;
        let taipe = lhs.taipe.remove_const();
        if !taipe.same(rhs.taipe.remove_const()) {
            Err(StopView::Errors(s.binary_err(op, lhs, rhs, line)))
        } else {
        if s.is_comparable(taipe) {
            match s.binary_value(op.kind, line, lhs, rhs) { Err(e) => Err(e), Ok(value) => {
            Ok(ContextView::make(false, TypeView::Bool, value))
            }}
        } else {
        match taipe {
            TypeView::Typedef => {
                match s.type_value(lhs.value) { Err(e) => Err(e), Ok(left) => {
                match s.type_value(rhs.value) { Err(e) => Err(e), Ok(right) => {
                Ok(
                    ContextView::make(
                        false,
                        TypeView::Bool,
                        ValueView::from_bool(s.types_compare(op.kind, left.same(right))),
                    ),
                )
                }}}}
            },
            _ => {
                Err(StopView::Errors(s.binary_err(op, lhs, rhs, line)))
            },
        }
        }}
    }

    /// Gives an integer literal that is shifted the type `int`.
    #[verifier::opaque]
    pub open spec fn settle_shifted(
        self,
        lhs: ContextView,
        line: Span,
    ) -> Result<ContextView, StopView>
    {
        let s = self;
        if !lhs.taipe.is_varint() {
            Ok(lhs)
        } else {
        match s.imm_of(lhs.value) { Err(e) => Err(e), Ok(imm) => {
        match s.transform_varint_to_int(imm, line) { Err(e) => Err(e), Ok(imm) => {
        Ok(ContextView::make(lhs.is_lvalue, s.int_type(), ValueView::Imm(imm)))
        }}}}}
    }

    /// Gives an integer literal that says how far to shift the type of 32 bits.
    #[verifier::opaque]
    pub open spec fn settle_shift(
        self,
        rhs: ContextView,
        line: Span,
    ) -> Result<ContextView, StopView>
    {
        let s = self;
        if !rhs.taipe.is_varint() {
            Ok(rhs)
        } else {
        match s.imm_of(rhs.value) { Err(e) => Err(e), Ok(imm) => {
        match s.transform_varint(TypeView::Uint32, imm, line, None) { Err(e) => Err(e), Ok(imm) => {
        Ok(ContextView::make(rhs.is_lvalue, TypeView::Uint32, ValueView::Imm(imm)))
        }}}}}
    }

    /// The result of a minus sign before an operand.
    #[verifier::opaque]
    pub open spec fn negate_result(
        self,
        ctx: ContextView,
        line: Span,
    ) -> Result<ContextView, StopView>
    {
        let s = self;
        match ctx.taipe.remove_const() {
            TypeView::VarInt => {
                match s.imm_of(ctx.value) { Err(e) => Err(e), Ok(imm) => {
                match s.transform_varint_to_int(imm, line) { Err(e) => Err(e), Ok(imm) => {
                if !imm.can_negate() {
                    Err(StopView::Unsupported("attempt to negate with overflow"@))
                } else {
                Ok(ContextView::make(false, s.int_type(), ValueView::Imm(imm.negate())))
                }}}}}
            },
            TypeView::Int8
            | TypeView::Int16
            | TypeView::Int32
            | TypeView::Int64
            | TypeView::Int128
            | TypeView::Float32
            | TypeView::Float64 => {
                let taipe = ctx.taipe.remove_const();
                Ok(
                    ContextView::make(
                        false,
                        taipe,
                        ValueView::Negate { line_info: line, ctx: Box::new(ctx) },
                    ),
                )
            },
            TypeView::Uint8
            | TypeView::Uint16
            | TypeView::Uint32
            | TypeView::Uint64
            | TypeView::Uint128 => {
                Err(
                    StopView::Errors(
                        s.make_err(
                            (
                                "cannot apply '-' operator on type '"@
                                    + ctx.taipe.to_text()
                                    + "': unsigned values cannot be negated"@
                            ),
                            line,
                        ),
                    ),
                )
            },
            _ => {
                Err(
                    StopView::Errors(
                        s.make_err(
                            ("cannot apply '-' operator on type '"@ + ctx.taipe.to_text() + "'"@),
                            line,
                        ),
                    ),
                )
            },
        }
    }

    /// The result of flipping the bits of an operand.
    #[verifier::opaque]
    pub open spec fn flip_bits_result(
        self,
        ctx: ContextView,
        line: Span,
    ) -> Result<ContextView, StopView>
    {
        let s = self;
        match ctx.taipe.remove_const() {
            TypeView::VarInt => {
                match s.imm_of(ctx.value) { Err(e) => Err(e), Ok(imm) => {
                match s.transform_varint_to_int(imm, line) { Err(e) => Err(e), Ok(imm) => {
                if !imm.is_integer() {
                    Err(StopView::Unsupported("probably some analyzer bug"@))
                } else {
                Ok(ContextView::make(false, s.int_type(), ValueView::Imm(imm.flip_bits())))
                }}}}}
            },
            taipe => {
                match taipe.int_kind() {
                    Some(_) => {
                        Ok(
                            ContextView::make(
                                false,
                                taipe,
                                ValueView::FlipBits { line_info: line, ctx: Box::new(ctx) },
                            ),
                        )
                    },
                    None => {
                        Err(
                            StopView::Errors(
                                s.make_err(
                                    (
                                        "cannot apply '~' operator on type '"@
                                            + ctx.taipe.to_text()
                                            + "'"@
                                    ),
                                    line,
                                ),
                            ),
                        )
                    },
                }
            },
        }
    }

    /// The result of following a pointer.
    #[verifier::opaque]
    pub open spec fn deref_result(
        self,
        ctx: ContextView,
        line: Span,
    ) -> Result<ContextView, StopView>
    {
        let s = self;
        match ctx.taipe.remove_const() {
            TypeView::Pointer(taipe) => {
                Ok(
                    ContextView::make(
                        true,
                        *taipe,
                        ValueView::Deref { line_info: line, ctx: Box::new(ctx) },
                    ),
                )
            },
            _ => {
                Err(
                    StopView::Errors(
                        s.make_err(
                            ("cannot dereference type '"@ + ctx.taipe.to_text() + "'"@),
                            line,
                        ),
                    ),
                )
            },
        }
    }

    /// Whether values of a type have an address.
    #[verifier::opaque]
    pub open spec fn is_addressable(
        self,
        taipe: TypeView,
    ) -> bool
        decreases taipe,
    {
        let s = self;
        match taipe {
            TypeView::Const(inner) => {
                s.is_addressable(*inner)
            },
            TypeView::Module | TypeView::Typedef | TypeView::Void | TypeView::Noreturn => {
                false
            },
            _ => {
                true
            },
        }
    }

    /// The result of taking the address of an operand. An integer literal is a constant of the
    /// type `int`.
    #[verifier::opaque]
    pub open spec fn addr_of_result(
        self,
        ctx: ContextView,
        line: Span,
    ) -> Result<ContextView, StopView>
    {
        let s = self;
        if !s.is_addressable(ctx.taipe) {
            Err(
                StopView::Errors(
                    s.make_err(
                        ("cannot take address of value of type '"@ + ctx.taipe.to_text() + "'"@),
                        line,
                    ),
                ),
            )
        } else {
        if ctx.taipe.is_varint() {
            match s.imm_of(ctx.value) { Err(e) => Err(e), Ok(imm) => {
            match s.transform_varint_to_int(imm, line) { Err(e) => Err(e), Ok(imm) => {
            let place = ContextView::make(false, s.int_type().add_const(), ValueView::Imm(imm));
            let taipe = TypeView::Pointer(Box::new(s.int_type().add_const()));
            Ok(
                ContextView::make(
                    false,
                    taipe,
                    ValueView::AddrOf { line_info: line, ctx: Box::new(place) },
                ),
            )
            }}}}
        } else {
        if !ctx.is_lvalue {
            Err(
                StopView::Errors(
                    s.make_err("cannot take address of a prvalue (pure rvalue)"@, line),
                ),
            )
        } else {
        let taipe = TypeView::Pointer(Box::new(ctx.taipe));
        Ok(
            ContextView::make(
                false,
                taipe,
                ValueView::AddrOf { line_info: line, ctx: Box::new(ctx) },
            ),
        )
        }}}
    }

    /// Whether values of a type have a size and an alignment.
    #[verifier::opaque]
    pub open spec fn is_sizeof_permitted(
        self,
        taipe: TypeView,
    ) -> bool
        decreases taipe,
    {
        let s = self;
        match taipe {
            TypeView::Const(inner) => {
                s.is_sizeof_permitted(*inner)
            },
            TypeView::VarInt | TypeView::Module | TypeView::Void | TypeView::Noreturn => {
                false
            },
            _ => {
                true
            },
        }
    }

    /// The type whose size or alignment is asked for: a type itself, or that of a value.
    #[verifier::opaque]
    pub open spec fn measured_type(
        self,
        ctx: ContextView,
    ) -> Result<TypeView, StopView>
    {
        let s = self;
        match ctx.taipe {
            TypeView::Typedef => {
                s.type_value(ctx.value)
            },
            taipe => {
                Ok(taipe)
            },
        }
    }

    /// Whether the type of values of a type can be asked for.
    #[verifier::opaque]
    pub open spec fn is_typeof_permitted(
        self,
        taipe: TypeView,
    ) -> bool
        decreases taipe,
    {
        let s = self;
        match taipe {
            TypeView::Const(inner) => {
                s.is_typeof_permitted(*inner)
            },
            TypeView::VarInt | TypeView::Module | TypeView::Typedef | TypeView::Noreturn => {
                false
            },
            _ => {
                true
            },
        }
    }

    /// The result of asking for the type of an operand.
    #[verifier::opaque]
    pub open spec fn typeof_result(
        self,
        ctx: ContextView,
        line: Span,
    ) -> Result<ContextView, StopView>
    {
        let s = self;
        if !s.is_typeof_permitted(ctx.taipe) {
            Err(
                StopView::Errors(
                    s.make_err(
                        ("cannot use typeof operator on type '"@ + ctx.taipe.to_text() + "'"@),
                        line,
                    ),
                ),
            )
        } else {
        Ok(ContextView::from_type(ctx.taipe))
        }
    }

    /// The logical opposite of an operand.
    #[verifier::opaque]
    pub open spec fn not_result(
        self,
        ctx: ContextView,
        line: Span,
    ) -> Result<ContextView, StopView>
    {
        let s = self;
        if !ctx.taipe.is_bool() {
            Err(
                StopView::Errors(
                    s.make_err(
                        ("cannot use not operator on type '"@ + ctx.taipe.to_text() + "'"@),
                        line,
                    ),
                ),
            )
        } else {
        Ok(
            ContextView::make(
                false,
                TypeView::Bool,
                ValueView::Not { line_info: line, ctx: Box::new(ctx) },
            ),
        )
        }
    }
}

impl<'a> Analyzer<'a> {
    /// The report that an operator cannot be applied to two operands.
    pub(crate) fn binary_err(
        &self,
        op: &Token,
        lhs: &Context,
        rhs: &Context,
        line: LineInfo,
    ) -> (r: CompileError)
        requires
            self@.wf(),
        ensures
            r@ == self@.binary_err(op@, lhs@, rhs@, line@),
    {
        broadcast use group_analyzer;

        proof {
            reveal(AnalyzerView::binary_err);
            reveal(Context::model);
            reveal(Value::model);
        }
        self.make_err(
            &join2(
                &join2(
                    &join2(
                        &join2(
                            &join2(
                                &join2("cannot apply '", &op.text),
                                "' operator on values of types '",
                            ),
                            &lhs.taipe.to_text(),
                        ),
                        "' and '",
                    ),
                    &rhs.taipe.to_text(),
                ),
                "'",
            ),
            line,
        )
    }

    /// The instruction for a binary operator.
    pub(crate) fn binary_value(
        &self,
        op: TokenKind,
        line: LineInfo,
        lhs: Context,
        rhs: Context,
    ) -> (r: Result<Value, Stop>)
        requires
            self@.wf(),
        ensures
            outcome(r) == self@.binary_value(op, line@, lhs@, rhs@),
    {
        broadcast use group_analyzer;

        proof {
            reveal(AnalyzerView::binary_value);
            reveal(Context::model);
            reveal(Value::model);
        }
        match op {
            TokenKind::And => {
                Ok(Value::LogicAnd { line_info: line, lhs: Box::new(lhs), rhs: Box::new(rhs) })
            },
            TokenKind::Or => {
                Ok(Value::LogicOr { line_info: line, lhs: Box::new(lhs), rhs: Box::new(rhs) })
            },
            TokenKind::EqEq => {
                Ok(Value::Eq { line_info: line, lhs: Box::new(lhs), rhs: Box::new(rhs) })
            },
            TokenKind::LAngle => {
                Ok(Value::Lt { line_info: line, lhs: Box::new(lhs), rhs: Box::new(rhs) })
            },
            TokenKind::RAngle => {
                Ok(Value::Gt { line_info: line, lhs: Box::new(lhs), rhs: Box::new(rhs) })
            },
            TokenKind::LessEq => {
                Ok(Value::Le { line_info: line, lhs: Box::new(lhs), rhs: Box::new(rhs) })
            },
            TokenKind::GreaterEq => {
                Ok(Value::Ge { line_info: line, lhs: Box::new(lhs), rhs: Box::new(rhs) })
            },
            TokenKind::NotEq => {
                Ok(Value::Ne { line_info: line, lhs: Box::new(lhs), rhs: Box::new(rhs) })
            },
            TokenKind::Ampersand => {
                Ok(Value::BitAnd { line_info: line, lhs: Box::new(lhs), rhs: Box::new(rhs) })
            },
            TokenKind::Caret => {
                Ok(Value::BitXor { line_info: line, lhs: Box::new(lhs), rhs: Box::new(rhs) })
            },
            TokenKind::Pipe => {
                Ok(Value::BitOr { line_info: line, lhs: Box::new(lhs), rhs: Box::new(rhs) })
            },
            TokenKind::ShiftLeft => {
                Ok(Value::Shl { line_info: line, lhs: Box::new(lhs), rhs: Box::new(rhs) })
            },
            TokenKind::ShiftRight => {
                Ok(Value::Shr { line_info: line, lhs: Box::new(lhs), rhs: Box::new(rhs) })
            },
            TokenKind::Plus => {
                Ok(Value::Add { line_info: line, lhs: Box::new(lhs), rhs: Box::new(rhs) })
            },
            TokenKind::Minus => {
                Ok(Value::Sub { line_info: line, lhs: Box::new(lhs), rhs: Box::new(rhs) })
            },
            TokenKind::Star => {
                Ok(Value::Mul { line_info: line, lhs: Box::new(lhs), rhs: Box::new(rhs) })
            },
            TokenKind::Slash => {
                Ok(Value::Div { line_info: line, lhs: Box::new(lhs), rhs: Box::new(rhs) })
            },
            TokenKind::Percent => {
                Ok(Value::Rem { line_info: line, lhs: Box::new(lhs), rhs: Box::new(rhs) })
            },
            _ => {
                Err(Stop::Unsupported("probably some analyzer bug".to_owned()))
            },
        }
    }

    /// The result of a binary operator on two operands.
    pub(crate) fn binary_result(
        &self,
        op: &Token,
        lhs: Context,
        left_line: LineInfo,
        rhs: Context,
        right_line: LineInfo,
        line: LineInfo,
    ) -> (r: Result<Context, Stop>)
        requires
            self@.wf(),
        ensures
            outcome(r) == self@.binary_result(op@, lhs@, left_line@, rhs@, right_line@, line@),
    {
        broadcast use group_analyzer;

        proof {
            reveal(AnalyzerView::binary_result);
            reveal(Context::model);
            reveal(Value::model);
        }
        match op.kind {
            TokenKind::And | TokenKind::Or => {
                if !lhs.taipe.is_bool() || !rhs.taipe.is_bool() {
                    return Err(Stop::Errors(self.binary_err(op, &lhs, &rhs, line)));
                }
                let value = match self.binary_value(op.kind, line, lhs, rhs) {
                    Ok(v) => v,
                    Err(e) => {
                        return Err(e);
                    },
                };
                Ok(Context::make(false, Type::Bool, value))
            },
            TokenKind::LAngle
            | TokenKind::LessEq
            | TokenKind::EqEq
            | TokenKind::NotEq
            | TokenKind::GreaterEq
            | TokenKind::RAngle => {
                let (lhs, rhs) = match self.resolve_value_promotion(
                    lhs,
                    left_line,
                    rhs,
                    right_line,
                ) {
                    Ok(v) => v,
                    Err(e) => {
                        return Err(e);
                    },
                };
                self.relational_result(op, lhs, rhs, line)
            },
            TokenKind::Ampersand | TokenKind::Caret | TokenKind::Pipe | TokenKind::Percent => {
                if !lhs.taipe.is_integer() || !rhs.taipe.is_integer() {
                    return Err(Stop::Errors(self.binary_err(op, &lhs, &rhs, line)));
                }
                let (lhs, rhs) = match self.resolve_value_promotion(
                    lhs,
                    left_line,
                    rhs,
                    right_line,
                ) {
                    Ok(v) => v,
                    Err(e) => {
                        return Err(e);
                    },
                };
                self.arithmetic_result(op, lhs, rhs, line)
            },
            TokenKind::ShiftLeft | TokenKind::ShiftRight => {
                if !lhs.taipe.is_integer() {
                    return Err(Stop::Errors(self.binary_err(op, &lhs, &rhs, line)));
                }
                if !rhs.taipe.is_varint() && !rhs.taipe.is_unsigned_integer() {
                    return Err(
                        Stop::Errors(
                            self.make_err(
                                &join2(
                                    &join2(
                                        "expected unsigned integer but got '",
                                        &rhs.taipe.to_text(),
                                    ),
                                    "'",
                                ),
                                right_line,
                            ),
                        ),
                    );
                }
                let lhs = match self.settle_shifted(lhs, right_line) {
                    Ok(v) => v,
                    Err(e) => {
                        return Err(e);
                    },
                };
                let rhs = match self.settle_shift(rhs, right_line) {
                    Ok(v) => v,
                    Err(e) => {
                        return Err(e);
                    },
                };
                let taipe = lhs.taipe.remove_const();
                let value = match self.binary_value(op.kind, line, lhs, rhs) {
                    Ok(v) => v,
                    Err(e) => {
                        return Err(e);
                    },
                };
                Ok(Context::make(false, taipe, value))
            },
            TokenKind::Plus | TokenKind::Minus => {
                if !(lhs.taipe.is_integer() || lhs.taipe.is_float())
                    || !(rhs.taipe.is_integer() || rhs.taipe.is_float()) {
                    return Err(Stop::Errors(self.binary_err(op, &lhs, &rhs, line)));
                }
                let (lhs, rhs) = match self.resolve_value_promotion(
                    lhs,
                    left_line,
                    rhs,
                    right_line,
                ) {
                    Ok(v) => v,
                    Err(e) => {
                        return Err(e);
                    },
                };
                self.arithmetic_result(op, lhs, rhs, line)
            },
            TokenKind::Star | TokenKind::Slash => {
                if !(lhs.taipe.is_integer() || lhs.taipe.is_float())
                    || !(rhs.taipe.is_integer() || rhs.taipe.is_float()) {
                    return Err(Stop::Errors(self.binary_err(op, &lhs, &rhs, line)));
                }
                let (lhs, rhs) = match self.resolve_value_promotion(
                    lhs,
                    left_line,
                    rhs,
                    right_line,
                ) {
                    Ok(v) => v,
                    Err(e) => {
                        return Err(e);
                    },
                };
                self.arithmetic_result(op, lhs, rhs, line)
            },
            _ => {
                Err(Stop::Errors(self.binary_err(op, &lhs, &rhs, line)))
            },
        }
    }

    /// The result of an operator on two operands of the same type, which is the type of the
    /// result.
    pub(crate) fn arithmetic_result(
        &self,
        op: &Token,
        lhs: Context,
        rhs: Context,
        line: LineInfo,
    ) -> (r: Result<Context, Stop>)
        requires
            self@.wf(),
        ensures
            outcome(r) == self@.arithmetic_result(op@, lhs@, rhs@, line@),
    {
        broadcast use group_analyzer;

        proof {
            reveal(AnalyzerView::arithmetic_result);
            reveal(Context::model);
            reveal(Value::model);
        }
        if !lhs.taipe.remove_const().same(&rhs.taipe.remove_const()) {
            return Err(Stop::Errors(self.binary_err(op, &lhs, &rhs, line)));
        }
        let taipe = lhs.taipe.remove_const();
        let value = match self.binary_value(op.kind, line, lhs, rhs) {
            Ok(v) => v,
            Err(e) => {
                return Err(e);
            },
        };
        Ok(Context::make(false, taipe, value))
    }

    /// Whether values of a type can be compared by an instruction.
    pub(crate) fn is_comparable(
        &self,
        taipe: &Type,
    ) -> (r: bool)
        requires
            self@.wf(),
        ensures
            r == self@.is_comparable(taipe@),
    {
        broadcast use group_analyzer;

        proof {
            reveal(AnalyzerView::is_comparable);
        }
        match taipe {
            Type::Bool | Type::Char | Type::Pointer(_) | Type::Float32 | Type::Float64 => {
                true
            },
            _ => {
                match taipe.int_kind() {
                    Some(_) => {
                        true
                    },
                    None => {
                        false
                    },
                }
            },
        }
    }

    /// The type that a value of the type of types is.
    pub(crate) fn type_value(
        &self,
        value: &Value,
    ) -> (r: Result<Type, Stop>)
        requires
            self@.wf(),
        ensures
            outcome(r) == self@.type_value(value@),
    {
        broadcast use group_analyzer;

        proof {
            reveal(AnalyzerView::type_value);
            reveal(Context::model);
            reveal(Value::model);
        }
        match value {
            Value::Imm(Imm::Type(taipe)) => {
                Ok(taipe.copy())
            },
            _ => {
                Err(Stop::Unsupported("probably some analyzer bug".to_owned()))
            },
        }
    }

    /// What a comparison of two types says. Types are not ordered: they are the same or not.
    pub(crate) fn types_compare(
        &self,
        op: TokenKind,
        same: bool,
    ) -> (r: bool)
        requires
            self@.wf(),
        ensures
            r == self@.types_compare(op, same),
    {
        broadcast use group_analyzer;

        proof {
            reveal(AnalyzerView::types_compare);
        }
        match op {
            TokenKind::EqEq | TokenKind::LessEq | TokenKind::GreaterEq => {
                same
            },
            TokenKind::NotEq => {
                !same
            },
            _ => {
                false
            },
        }
    }

    /// The result of the comparison of two operands.
    pub(crate) fn relational_result(
        &self,
        op: &Token,
        lhs: Context,
        rhs: Context,
        line: LineInfo,
    ) -> (r: Result<Context, Stop>)
        requires
            self@.wf(),
        ensures
            outcome(r) == self@.relational_result(op@, lhs@, rhs@, line@),
    {
        broadcast use group_analyzer;

        proof {
            reveal(AnalyzerView::relational_result);
            reveal(Context::model);
            reveal(Value::model);
        }
        let taipe = lhs.taipe.remove_const();
        if !taipe.same(&rhs.taipe.remove_const()) {
            return Err(Stop::Errors(self.binary_err(op, &lhs, &rhs, line)));
        }
        if self.is_comparable(&taipe) {
            let value = match self.binary_value(op.kind, line, lhs, rhs) {
                Ok(v) => v,
                Err(e) => {
                    return Err(e);
                },
            };
            return Ok(Context::make(false, Type::Bool, value));
        }
        match taipe {
            Type::Typedef => {
                let left = match self.type_value(&lhs.value) {
                    Ok(v) => v,
                    Err(e) => {
                        return Err(e);
                    },
                };
                let right = match self.type_value(&rhs.value) {
                    Ok(v) => v,
                    Err(e) => {
                        return Err(e);
                    },
                };
                Ok(
                    Context::make(
                        false,
                        Type::Bool,
                        Value::from_bool(self.types_compare(op.kind, left.same(&right))),
                    ),
                )
            },
            _ => {
                Err(Stop::Errors(self.binary_err(op, &lhs, &rhs, line)))
            },
        }
    }

    /// Gives an integer literal that is shifted the type `int`.
    pub(crate) fn settle_shifted(
        &self,
        lhs: Context,
        line: LineInfo,
    ) -> (r: Result<Context, Stop>)
        requires
            self@.wf(),
        ensures
            outcome(r) == self@.settle_shifted(lhs@, line@),
    {
        broadcast use group_analyzer;

        proof {
            reveal(AnalyzerView::settle_shifted);
            reveal(Context::model);
            reveal(Value::model);
        }
        if !lhs.taipe.is_varint() {
            return Ok(lhs);
        }
        let imm = match self.imm_of(&lhs.value) {
            Ok(v) => v,
            Err(e) => {
                return Err(e);
            },
        };
        let imm = match self.transform_varint_to_int(&imm, line) {
            Ok(v) => v,
            Err(e) => {
                return Err(e);
            },
        };
        Ok(Context::make(lhs.is_lvalue, self.int_type(), Value::Imm(imm)))
    }

    /// Gives an integer literal that says how far to shift the type of 32 bits.
    pub(crate) fn settle_shift(
        &self,
        rhs: Context,
        line: LineInfo,
    ) -> (r: Result<Context, Stop>)
        requires
            self@.wf(),
        ensures
            outcome(r) == self@.settle_shift(rhs@, line@),
    {
        broadcast use group_analyzer;

        proof {
            reveal(AnalyzerView::settle_shift);
            reveal(Context::model);
            reveal(Value::model);
        }
        if !rhs.taipe.is_varint() {
            return Ok(rhs);
        }
        let imm = match self.imm_of(&rhs.value) {
            Ok(v) => v,
            Err(e) => {
                return Err(e);
            },
        };
        let imm = match self.transform_varint(&Type::Uint32, &imm, line, None) {
            Ok(v) => v,
            Err(e) => {
                return Err(e);
            },
        };
        Ok(Context::make(rhs.is_lvalue, Type::Uint32, Value::Imm(imm)))
    }

    /// The result of a minus sign before an operand.
    pub(crate) fn negate_result(
        &self,
        ctx: Context,
        line: LineInfo,
    ) -> (r: Result<Context, Stop>)
        requires
            self@.wf(),
        ensures
            outcome(r) == self@.negate_result(ctx@, line@),
    {
        broadcast use group_analyzer;

        proof {
            reveal(AnalyzerView::negate_result);
            reveal(Context::model);
            reveal(Value::model);
        }
        match ctx.taipe.remove_const() {
            Type::VarInt => {
                let imm = match self.imm_of(&ctx.value) {
                    Ok(v) => v,
                    Err(e) => {
                        return Err(e);
                    },
                };
                let imm = match self.transform_varint_to_int(&imm, line) {
                    Ok(v) => v,
                    Err(e) => {
                        return Err(e);
                    },
                };
                if !imm.can_negate() {
                    return Err(Stop::Unsupported("attempt to negate with overflow".to_owned()));
                }
                Ok(Context::make(false, self.int_type(), Value::Imm(imm.negate())))
            },
            Type::Int8
            | Type::Int16
            | Type::Int32
            | Type::Int64
            | Type::Int128
            | Type::Float32
            | Type::Float64 => {
                let taipe = ctx.taipe.remove_const();
                Ok(
                    Context::make(
                        false,
                        taipe,
                        Value::Negate { line_info: line, ctx: Box::new(ctx) },
                    ),
                )
            },
            Type::Uint8 | Type::Uint16 | Type::Uint32 | Type::Uint64 | Type::Uint128 => {
                Err(
                    Stop::Errors(
                        self.make_err(
                            &join2(
                                &join2("cannot apply '-' operator on type '", &ctx.taipe.to_text()),
                                "': unsigned values cannot be negated",
                            ),
                            line,
                        ),
                    ),
                )
            },
            _ => {
                Err(
                    Stop::Errors(
                        self.make_err(
                            &join2(
                                &join2("cannot apply '-' operator on type '", &ctx.taipe.to_text()),
                                "'",
                            ),
                            line,
                        ),
                    ),
                )
            },
        }
    }

    /// The result of flipping the bits of an operand.
    pub(crate) fn flip_bits_result(
        &self,
        ctx: Context,
        line: LineInfo,
    ) -> (r: Result<Context, Stop>)
        requires
            self@.wf(),
        ensures
            outcome(r) == self@.flip_bits_result(ctx@, line@),
    {
        broadcast use group_analyzer;

        proof {
            reveal(AnalyzerView::flip_bits_result);
            reveal(Context::model);
            reveal(Value::model);
        }
        match ctx.taipe.remove_const() {
            Type::VarInt => {
                let imm = match self.imm_of(&ctx.value) {
                    Ok(v) => v,
                    Err(e) => {
                        return Err(e);
                    },
                };
                let imm = match self.transform_varint_to_int(&imm, line) {
                    Ok(v) => v,
                    Err(e) => {
                        return Err(e);
                    },
                };
                if !imm.is_integer() {
                    return Err(Stop::Unsupported("probably some analyzer bug".to_owned()));
                }
                Ok(Context::make(false, self.int_type(), Value::Imm(imm.flip_bits())))
            },
            taipe => {
                match taipe.int_kind() {
                    Some(_) => {
                        Ok(
                            Context::make(
                                false,
                                taipe,
                                Value::FlipBits { line_info: line, ctx: Box::new(ctx) },
                            ),
                        )
                    },
                    None => {
                        Err(
                            Stop::Errors(
                                self.make_err(
                                    &join2(
                                        &join2(
                                            "cannot apply '~' operator on type '",
                                            &ctx.taipe.to_text(),
                                        ),
                                        "'",
                                    ),
                                    line,
                                ),
                            ),
                        )
                    },
                }
            },
        }
    }

    /// The result of following a pointer.
    pub(crate) fn deref_result(
        &self,
        ctx: Context,
        line: LineInfo,
    ) -> (r: Result<Context, Stop>)
        requires
            self@.wf(),
        ensures
            outcome(r) == self@.deref_result(ctx@, line@),
    {
        broadcast use group_analyzer;

        proof {
            reveal(AnalyzerView::deref_result);
            reveal(Context::model);
            reveal(Value::model);
        }
        match ctx.taipe.remove_const() {
            Type::Pointer(taipe) => {
                Ok(
                    Context::make(
                        true,
                        *taipe,
                        Value::Deref { line_info: line, ctx: Box::new(ctx) },
                    ),
                )
            },
            _ => {
                Err(
                    Stop::Errors(
                        self.make_err(
                            &join2(&join2("cannot dereference type '", &ctx.taipe.to_text()), "'"),
                            line,
                        ),
                    ),
                )
            },
        }
    }

    /// Whether values of a type have an address.
    pub(crate) fn is_addressable(
        &self,
        taipe: &Type,
    ) -> (r: bool)
        requires
            self@.wf(),
        ensures
            r == self@.is_addressable(taipe@),
        decreases taipe,
    {
        broadcast use group_analyzer;

        proof {
            reveal(AnalyzerView::is_addressable);
        }
        match taipe {
            Type::Const(inner) => {
                self.is_addressable(inner)
            },
            Type::Module | Type::Typedef | Type::Void | Type::Noreturn => {
                false
            },
            _ => {
                true
            },
        }
    }

    /// The result of taking the address of an operand. An integer literal is a constant of the
    /// type `int`.
    pub(crate) fn addr_of_result(
        &self,
        ctx: Context,
        line: LineInfo,
    ) -> (r: Result<Context, Stop>)
        requires
            self@.wf(),
        ensures
            outcome(r) == self@.addr_of_result(ctx@, line@),
    {
        broadcast use group_analyzer;

        proof {
            reveal(AnalyzerView::addr_of_result);
            reveal(Context::model);
            reveal(Value::model);
        }
        if !self.is_addressable(&ctx.taipe) {
            return Err(
                Stop::Errors(
                    self.make_err(
                        &join2(
                            &join2("cannot take address of value of type '", &ctx.taipe.to_text()),
                            "'",
                        ),
                        line,
                    ),
                ),
            );
        }
        if ctx.taipe.is_varint() {
            let imm = match self.imm_of(&ctx.value) {
                Ok(v) => v,
                Err(e) => {
                    return Err(e);
                },
            };
            let imm = match self.transform_varint_to_int(&imm, line) {
                Ok(v) => v,
                Err(e) => {
                    return Err(e);
                },
            };
            let place = Context::make(false, self.int_type().add_const(), Value::Imm(imm));
            let taipe = Type::Pointer(Box::new(self.int_type().add_const()));
            return Ok(
                Context::make(
                    false,
                    taipe,
                    Value::AddrOf { line_info: line, ctx: Box::new(place) },
                ),
            );
        }
        if !ctx.is_lvalue {
            return Err(
                Stop::Errors(self.make_err("cannot take address of a prvalue (pure rvalue)", line)),
            );
        }
        let taipe = Type::Pointer(Box::new(ctx.taipe.copy()));
        Ok(Context::make(false, taipe, Value::AddrOf { line_info: line, ctx: Box::new(ctx) }))
    }

    /// Whether values of a type have a size and an alignment.
    pub(crate) fn is_sizeof_permitted(
        &self,
        taipe: &Type,
    ) -> (r: bool)
        requires
            self@.wf(),
        ensures
            r == self@.is_sizeof_permitted(taipe@),
        decreases taipe,
    {
        broadcast use group_analyzer;

        proof {
            reveal(AnalyzerView::is_sizeof_permitted);
        }
        match taipe {
            Type::Const(inner) => {
                self.is_sizeof_permitted(inner)
            },
            Type::VarInt | Type::Module | Type::Void | Type::Noreturn => {
                false
            },
            _ => {
                true
            },
        }
    }

    /// The type whose size or alignment is asked for: a type itself, or that of a value.
    pub(crate) fn measured_type(
        &self,
        ctx: Context,
    ) -> (r: Result<Type, Stop>)
        requires
            self@.wf(),
        ensures
            outcome(r) == self@.measured_type(ctx@),
    {
        broadcast use group_analyzer;

        proof {
            reveal(AnalyzerView::measured_type);
            reveal(Context::model);
            reveal(Value::model);
        }
        match &ctx.taipe {
            Type::Typedef => {
                self.type_value(&ctx.value)
            },
            taipe => {
                Ok(taipe.copy())
            },
        }
    }

    /// Whether the type of values of a type can be asked for.
    pub(crate) fn is_typeof_permitted(
        &self,
        taipe: &Type,
    ) -> (r: bool)
        requires
            self@.wf(),
        ensures
            r == self@.is_typeof_permitted(taipe@),
        decreases taipe,
    {
        broadcast use group_analyzer;

        proof {
            reveal(AnalyzerView::is_typeof_permitted);
        }
        match taipe {
            Type::Const(inner) => {
                self.is_typeof_permitted(inner)
            },
            Type::VarInt | Type::Module | Type::Typedef | Type::Noreturn => {
                false
            },
            _ => {
                true
            },
        }
    }

    /// The result of asking for the type of an operand.
    pub(crate) fn typeof_result(
        &self,
        ctx: Context,
        line: LineInfo,
    ) -> (r: Result<Context, Stop>)
        requires
            self@.wf(),
        ensures
            outcome(r) == self@.typeof_result(ctx@, line@),
    {
        broadcast use group_analyzer;

        proof {
            reveal(AnalyzerView::typeof_result);
            reveal(Context::model);
            reveal(Value::model);
        }
        if !self.is_typeof_permitted(&ctx.taipe) {
            return Err(
                Stop::Errors(
                    self.make_err(
                        &join2(
                            &join2("cannot use typeof operator on type '", &ctx.taipe.to_text()),
                            "'",
                        ),
                        line,
                    ),
                ),
            );
        }
        Ok(Context::from_type(ctx.taipe))
    }

    /// The logical opposite of an operand.
    pub(crate) fn not_result(
        &self,
        ctx: Context,
        line: LineInfo,
    ) -> (r: Result<Context, Stop>)
        requires
            self@.wf(),
        ensures
            outcome(r) == self@.not_result(ctx@, line@),
    {
        broadcast use group_analyzer;

        proof {
            reveal(AnalyzerView::not_result);
            reveal(Context::model);
            reveal(Value::model);
        }
        if !ctx.taipe.is_bool() {
            return Err(
                Stop::Errors(
                    self.make_err(
                        &join2(
                            &join2("cannot use not operator on type '", &ctx.taipe.to_text()),
                            "'",
                        ),
                        line,
                    ),
                ),
            );
        }
        Ok(Context::make(false, Type::Bool, Value::Not { line_info: line, ctx: Box::new(ctx) }))
    }
}

} // verus!
