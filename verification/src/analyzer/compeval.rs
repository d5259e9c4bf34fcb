use vstd::prelude::*;

use crate::analyzer::{group_analyzer, Analyzer, AnalyzerView};
use crate::common::{
    option_outcome, outcome, CompileError, ErrorView, LineInfo, Span, Stop, StopView,
};
use crate::context::{
    context_models, nth_type, nth_value, type_at, type_models, value_at, value_models, Context,
    ContextView, Float, FloatView, Imm, ImmView, Type, TypeView, Value, ValueView,
};
use crate::scope::{Payload, PayloadView, ScopeId, ScopeIdView, ScopeKind};
use crate::token::TokenKind;

verus! {

impl AnalyzerView {
    /// The report that an expression cannot be evaluated.
    #[verifier::opaque]
    pub open spec fn not_trivial(
        self,
        line: Span,
    ) -> ErrorView
    {
        let s = self;
        s.make_err("could not evaluate expression trivially at compile time"@, line)
    }

    /// The report that an expression cannot be evaluated, and why.
    #[verifier::opaque]
    pub open spec fn not_trivial_because(
        self,
        line: Span,
        why: Seq<char>,
    ) -> ErrorView
    {
        let s = self;
        ErrorView::pair(s.not_trivial(line), s.make_note_no_path(why))
    }

    /// The value of an arithmetic operator on two values.
    #[verifier::opaque]
    pub open spec fn fold_arithmetic(
        self,
        op: TokenKind,
        line: Span,
        lhs: ContextView,
        rhs: ContextView,
    ) -> Result<ContextView, StopView>
    {
        let s = self;
        if !lhs.taipe.remove_const().same(rhs.taipe.remove_const()) {
            Err(StopView::Unsupported("probably some analyzer bug"@))
        } else {
        let taipe = lhs.taipe.remove_const();
        match (lhs.value, rhs.value) {
            (ValueView::Imm(left), ValueView::Imm(right)) => {
                if !left.can_calculate(right) {
                    Err(StopView::Unsupported("probably some analyzer bug"@))
                } else {
                match s.fold_imm(op, left, right) { Err(e) => Err(e), Ok(folded) => {
                match folded {
                    Some(imm) => {
                        Ok(ContextView::make(false, taipe, ValueView::Imm(imm)))
                    },
                    None => {
                        Err(StopView::Errors(s.make_err("detected integer overflow"@, line)))
                    },
                }
                }}}
            },
            _ => {
                Err(StopView::Errors(s.not_trivial(line)))
            },
        }
        }
    }

    /// The value of an arithmetic operator on two immediate values of the same type, if it
    /// can be held.
    #[verifier::opaque]
    pub open spec fn fold_imm(
        self,
        op: TokenKind,
        lhs: ImmView,
        rhs: ImmView,
    ) -> Result<Option<ImmView>, StopView>
    {
        match op {
            TokenKind::Plus => {
                Ok(lhs.add(rhs))
            },
            TokenKind::Minus => {
                Ok(lhs.sub(rhs))
            },
            TokenKind::Star => {
                Ok(lhs.mul(rhs))
            },
            TokenKind::Slash => {
                Ok(lhs.div(rhs))
            },
            TokenKind::Percent => {
                if !lhs.same_int_kind(rhs) {
                    Err(StopView::Unsupported("probably some analyzer bug"@))
                } else {
                Ok(lhs.modulo(rhs))
                }
            },
            _ => {
                Err(StopView::Unsupported("probably some analyzer bug"@))
            },
        }
    }

    /// The value of a shift.
    #[verifier::opaque]
    pub open spec fn fold_shift(
        self,
        op: TokenKind,
        line: Span,
        lhs: ContextView,
        rhs: ContextView,
    ) -> Result<ContextView, StopView>
    {
        let s = self;
        if !(lhs.taipe.is_integer() && rhs.taipe.same(TypeView::Uint32)) {
            Err(StopView::Unsupported("probably some analyzer bug"@))
        } else {
        let taipe = lhs.taipe.remove_const();
        match (lhs.value, rhs.value) {
            (ValueView::Imm(left), ValueView::Imm(right)) => {
                match right {
                    ImmView::Uint32(_) => {
                        if !left.is_integer() {
                            Err(StopView::Unsupported("probably some analyzer bug"@))
                        } else {
                        match op {
                            TokenKind::ShiftLeft => {
                                Ok(ContextView::make(false, taipe, ValueView::Imm(left.shl(right))))
                            },
                            _ => {
                                Ok(ContextView::make(false, taipe, ValueView::Imm(left.shr(right))))
                            },
                        }
                        }
                    },
                    _ => {
                        Err(StopView::Unsupported("probably some analyzer bug"@))
                    },
                }
            },
            _ => {
                Err(StopView::Errors(s.not_trivial(line)))
            },
        }
        }
    }

    /// The value of a bitwise operator on two values.
    #[verifier::opaque]
    pub open spec fn fold_bits(
        self,
        op: TokenKind,
        line: Span,
        lhs: ContextView,
        rhs: ContextView,
    ) -> Result<ContextView, StopView>
    {
        let s = self;
        if !lhs.taipe.remove_const().same(rhs.taipe.remove_const()) || !lhs.taipe.is_integer() {
            Err(StopView::Unsupported("probably some analyzer bug"@))
        } else {
        let taipe = lhs.taipe.remove_const();
        match (lhs.value, rhs.value) {
            (ValueView::Imm(left), ValueView::Imm(right)) => {
                if !left.same_int_kind(right) {
                    Err(StopView::Unsupported("probably some analyzer bug"@))
                } else {
                match op {
                    TokenKind::Ampersand => {
                        Ok(ContextView::make(false, taipe, ValueView::Imm(left.bit_and(right))))
                    },
                    TokenKind::Caret => {
                        Ok(ContextView::make(false, taipe, ValueView::Imm(left.bit_xor(right))))
                    },
                    _ => {
                        Ok(ContextView::make(false, taipe, ValueView::Imm(left.bit_or(right))))
                    },
                }
                }
            },
            _ => {
                Err(StopView::Errors(s.not_trivial(line)))
            },
        }
        }
    }

    /// The truth value that a value is.
    #[verifier::opaque]
    pub open spec fn truth_of(
        self,
        ctx: ContextView,
        line: Span,
    ) -> Result<bool, StopView>
    {
        let s = self;
        if !ctx.taipe.is_bool() {
            Err(StopView::Unsupported("probably some analyzer bug"@))
        } else {
        match ctx.value {
            ValueView::Imm(ImmView::Bool(b)) => {
                Ok(b)
            },
            _ => {
                Err(StopView::Errors(s.not_trivial(line)))
            },
        }
        }
    }

    /// The immediate value of a type for an integer, cut to the width of the type.
    #[verifier::opaque]
    pub open spec fn cast_imm(
        self,
        imm: ImmView,
        to: TypeView,
    ) -> Result<ImmView, StopView>
    {
        if !imm.is_integer() {
            Err(StopView::Unsupported("probably some analyzer bug"@))
        } else {
        match to.remove_const() {
            TypeView::Float32 => {
                Ok(ImmView::Float32(imm.to_float()))
            },
            TypeView::Float64 => {
                Ok(ImmView::Float64(imm.to_float()))
            },
            plain => {
                match plain.int_kind() { None => {
                    Err(StopView::Unsupported("probably some analyzer bug"@))
                }, Some(kind) => {
                Ok(imm.cast_to(kind))
                }}
            },
        }
        }
    }

    /// The immediate value of a floating point type for a floating point number.
    #[verifier::opaque]
    pub open spec fn cast_float(
        self,
        imm: ImmView,
        to: TypeView,
    ) -> Result<ImmView, StopView>
    {
        match to.remove_const() {
            TypeView::Float32 => {
                match imm {
                    ImmView::Float32(value) => {
                        Ok(ImmView::Float32(value))
                    },
                    ImmView::Float64(value) => {
                        Ok(ImmView::Float32(FloatView::Convert(Box::new(value))))
                    },
                    _ => {
                        Err(StopView::Unsupported("probably some analyzer bug"@))
                    },
                }
            },
            TypeView::Float64 => {
                match imm {
                    ImmView::Float32(value) => {
                        Ok(ImmView::Float64(FloatView::Convert(Box::new(value))))
                    },
                    ImmView::Float64(value) => {
                        Ok(ImmView::Float64(value))
                    },
                    _ => {
                        Err(StopView::Unsupported("probably some analyzer bug"@))
                    },
                }
            },
            _ => {
                Err(
                    StopView::Unsupported(
                        "a floating point number is not converted to an integer at compile time"@,
                    ),
                )
            },
        }
    }

    /// The value of a cast.
    #[verifier::opaque]
    pub open spec fn fold_cast(
        self,
        from: ContextView,
        to: TypeView,
    ) -> Result<ContextView, StopView>
    {
        let s = self;
        if from.taipe.is_signed_integer() {
            match s.imm_of(from.value) { Err(e) => Err(e), Ok(imm) => {
            if !imm.is_signed() {
                Err(StopView::Unsupported("probably some analyzer bug"@))
            } else {
            match s.cast_imm(imm, to) { Err(e) => Err(e), Ok(imm) => {
            Ok(ContextView::make(false, to, ValueView::Imm(imm)))
            }}}}}
        } else {
            if from.taipe.is_unsigned_integer() {
                match s.imm_of(from.value) { Err(e) => Err(e), Ok(imm) => {
                if !imm.is_unsigned() {
                    Err(StopView::Unsupported("probably some analyzer bug"@))
                } else {
                match s.cast_imm(imm, to) { Err(e) => Err(e), Ok(imm) => {
                Ok(ContextView::make(false, to, ValueView::Imm(imm)))
                }}}}}
            } else {
                if from.taipe.is_float() {
                    match s.imm_of(from.value) { Err(e) => Err(e), Ok(imm) => {
                    match s.cast_float(imm, to) { Err(e) => Err(e), Ok(imm) => {
                    Ok(ContextView::make(false, to, ValueView::Imm(imm)))
                    }}}}
                } else {
                    if from.taipe.is_array() && to.is_fat_ptr() {
                        Ok(ContextView::make(false, to, from.value))
                    } else {
                        Err(StopView::Unsupported("probably some analyzer bug"@))
                    }
                }
            }
        }
    }

    /// The type of the items of an array or a fat pointer.
    #[verifier::opaque]
    pub open spec fn item_type(
        self,
        taipe: TypeView,
    ) -> Result<TypeView, StopView>
    {
        match taipe.remove_const() {
            TypeView::Array { count: _, taipe: item } => {
                Ok(*item)
            },
            TypeView::Fat(item) => {
                Ok(*item)
            },
            _ => {
                Err(StopView::Unsupported("probably some analyzer bug"@))
            },
        }
    }

    /// The types of the items of a tuple.
    #[verifier::opaque]
    pub open spec fn tuple_type(
        self,
        taipe: TypeView,
        index: usize,
    ) -> Result<TypeView, StopView>
    {
        match taipe.remove_const() {
            TypeView::Tuple(types) => {
                match nth_type(types, index) {
                    Some(item) => {
                        Ok(item)
                    },
                    None => {
                        Err(StopView::Unsupported("probably some analyzer bug"@))
                    },
                }
            },
            _ => {
                Err(StopView::Unsupported("probably some analyzer bug"@))
            },
        }
    }

    /// The value of a global constant.
    #[verifier::opaque]
    pub open spec fn global_value(
        self,
        line: Span,
        scope_id: ScopeIdView,
        fuel: int,
    ) -> Result<ContextView, StopView>
        decreases fuel, 3nat, 0int,
    {
        let s = self;
        match s.get_scope(scope_id) { Err(e) => Err(e), Ok(scope) => {
        match scope.kind {
            ScopeKind::Const => {
                match scope.payload {
                    PayloadView::Global(ctx) => {
                        match ctx.value {
                            ValueView::Imm(_) | ValueView::Array(_) | ValueView::Tuple(_) => {
                                Ok(ctx)
                            },
                            _ => {
                                s.compeval_context(ctx, fuel)
                            },
                        }
                    },
                    _ => {
                        Err(StopView::Unsupported("probably some analyzer bug"@))
                    },
                }
            },
            _ => {
                Err(
                    StopView::Errors(
                        ErrorView::pair(
                            s.make_err(
                                "accessing global variables is not allowed in trivial compeval context"@,
                                line,
                            ),
                            s.make_note_no_path("only accessing global constants is allowed"@),
                        ),
                    ),
                )
            },
        }
        }}
    }

    /// Evaluates an expression that has no side effects.
    #[verifier::opaque]
    pub open spec fn compeval_trivial(
        self,
        ctx: ContextView,
    ) -> Result<ContextView, StopView>
    {
        let s = self;
        s.compeval_context(ctx, 0xffff_ffff_ffff_ffff)
    }

    /// Evaluates a value with its type.
    #[verifier::opaque]
    pub open spec fn compeval_context(
        self,
        ctx: ContextView,
        fuel: int,
    ) -> Result<ContextView, StopView>
        decreases fuel, 2nat, 0int,
    {
        let s = self;
        s.compeval_trivial_impl(ctx.is_lvalue, ctx.taipe, ctx.value, fuel)
    }

    /// Evaluates both operands of an operator.
    #[verifier::opaque]
    pub open spec fn compeval_pair(
        self,
        lhs: ContextView,
        rhs: ContextView,
        fuel: int,
    ) -> Result<(ContextView, ContextView), StopView>
        decreases fuel, 3nat, 0int,
    {
        let s = self;
        match s.compeval_context(lhs, fuel) { Err(e) => Err(e), Ok(left) => {
        match s.compeval_context(rhs, fuel) { Err(e) => Err(e), Ok(right) => {
        Ok((left, right))
        }}}}
    }

    /// Evaluates a value. What comes out is an immediate value, an array or a tuple.
    #[verifier::opaque]
    pub open spec fn compeval_trivial_impl(
        self,
        is_lvalue: bool,
        taipe: TypeView,
        value: ValueView,
        fuel: int,
    ) -> Result<ContextView, StopView>
        decreases fuel, 1nat, 0int,
    {
        let s = self;
        if fuel <= 0 {
            Err(StopView::Unsupported("nested too deeply"@))
        } else {
        match value {
            ValueView::Imm(_) => {
                Ok(ContextView::make(is_lvalue, taipe, value))
            },
            ValueView::Array(values) => {
                match taipe {
                    TypeView::Array { count: _, taipe: item } => {
                        match s.compeval_array(*item, values, seq![], fuel - 1, 0) {
                            Err(e) => Err(e), Ok(array) => {
                        Ok(ContextView::make(is_lvalue, taipe, array))
                        }}
                    },
                    _ => {
                        Err(StopView::Unsupported("probably some analyzer bug"@))
                    },
                }
            },
            ValueView::Tuple(values) => {
                match taipe {
                    TypeView::Tuple(types) => {
                        if types.len() != values.len() {
                            Err(StopView::Unsupported("probably some analyzer bug"@))
                        } else {
                        match s.compeval_tuple(types, values, seq![], fuel - 1, 0) {
                            Err(e) => Err(e), Ok(tuple) => {
                        Ok(ContextView::make(is_lvalue, taipe, tuple))
                        }}}
                    },
                    _ => {
                        Err(StopView::Unsupported("probably some analyzer bug"@))
                    },
                }
            },
            ValueView::GetGlobal { line_info, scope_id } => {
                s.global_value(line_info, scope_id, fuel - 1)
            },
            ValueView::GetLocal { line_info: _, scope_id: _ } | ValueView::GetField {
                line_info: _,
                lhs: _,
                scope_id: _,
            } => {
                Err(StopView::Unsupported("not yet implemented"@))
            },
            ValueView::SetGlobal { line_info, scope_id: _, rhs: _ } => {
                Err(
                    StopView::Errors(
                        s.not_trivial_because(
                            line_info,
                            "setting global variables may produce side effects"@,
                        ),
                    ),
                )
            },
            ValueView::SetLocal { line_info, scope_id: _, rhs: _ } => {
                Err(
                    StopView::Errors(
                        s.not_trivial_because(
                            line_info,
                            "setting local variables may produce side effects"@,
                        ),
                    ),
                )
            },
            ValueView::SetField { line_info, lhs: _, scope_id: _, rhs: _ } => {
                Err(
                    StopView::Errors(
                        s.not_trivial_because(
                            line_info,
                            "setting fields may produce side effects"@,
                        ),
                    ),
                )
            },
            ValueView::Negate { line_info, ctx } => {
                match s.compeval_context(*ctx, fuel - 1) { Err(e) => Err(e), Ok(ctx) => {
                s.fold_negate(line_info, ctx)
                }}
            },
            ValueView::FlipBits { line_info, ctx } => {
                match s.compeval_context(*ctx, fuel - 1) { Err(e) => Err(e), Ok(ctx) => {
                s.fold_flip_bits(line_info, ctx)
                }}
            },
            ValueView::Not { line_info, ctx } => {
                match s.compeval_context(*ctx, fuel - 1) { Err(e) => Err(e), Ok(ctx) => {
                match s.truth_of(ctx, line_info) { Err(e) => Err(e), Ok(truth) => {
                Ok(
                    ContextView::make(
                        false,
                        ctx.taipe.remove_const(),
                        ValueView::Imm(ImmView::Bool(!truth)),
                    ),
                )
                }}}}
            },
            ValueView::Add { line_info, lhs, rhs } => {
                match s.compeval_pair(*lhs, *rhs, fuel - 1) { Err(e) => Err(e), Ok((lhs, rhs)) => {
                s.fold_arithmetic(TokenKind::Plus, line_info, lhs, rhs)
                }}
            },
            ValueView::Sub { line_info, lhs, rhs } => {
                match s.compeval_pair(*lhs, *rhs, fuel - 1) { Err(e) => Err(e), Ok((lhs, rhs)) => {
                s.fold_arithmetic(TokenKind::Minus, line_info, lhs, rhs)
                }}
            },
            ValueView::Mul { line_info, lhs, rhs } => {
                match s.compeval_pair(*lhs, *rhs, fuel - 1) { Err(e) => Err(e), Ok((lhs, rhs)) => {
                s.fold_arithmetic(TokenKind::Star, line_info, lhs, rhs)
                }}
            },
            ValueView::Div { line_info, lhs, rhs } => {
                match s.compeval_pair(*lhs, *rhs, fuel - 1) { Err(e) => Err(e), Ok((lhs, rhs)) => {
                s.fold_arithmetic(TokenKind::Slash, line_info, lhs, rhs)
                }}
            },
            ValueView::Rem { line_info, lhs, rhs } => {
                match s.compeval_pair(*lhs, *rhs, fuel - 1) { Err(e) => Err(e), Ok((lhs, rhs)) => {
                s.fold_arithmetic(TokenKind::Percent, line_info, lhs, rhs)
                }}
            },
            ValueView::Shl { line_info, lhs, rhs } => {
                match s.compeval_pair(*lhs, *rhs, fuel - 1) { Err(e) => Err(e), Ok((lhs, rhs)) => {
                s.fold_shift(TokenKind::ShiftLeft, line_info, lhs, rhs)
                }}
            },
            ValueView::Shr { line_info, lhs, rhs } => {
                match s.compeval_pair(*lhs, *rhs, fuel - 1) { Err(e) => Err(e), Ok((lhs, rhs)) => {
                s.fold_shift(TokenKind::ShiftRight, line_info, lhs, rhs)
                }}
            },
            ValueView::BitAnd { line_info, lhs, rhs } => {
                match s.compeval_pair(*lhs, *rhs, fuel - 1) { Err(e) => Err(e), Ok((lhs, rhs)) => {
                s.fold_bits(TokenKind::Ampersand, line_info, lhs, rhs)
                }}
            },
            ValueView::BitXor { line_info, lhs, rhs } => {
                match s.compeval_pair(*lhs, *rhs, fuel - 1) { Err(e) => Err(e), Ok((lhs, rhs)) => {
                s.fold_bits(TokenKind::Caret, line_info, lhs, rhs)
                }}
            },
            ValueView::BitOr { line_info, lhs, rhs } => {
                match s.compeval_pair(*lhs, *rhs, fuel - 1) { Err(e) => Err(e), Ok((lhs, rhs)) => {
                s.fold_bits(TokenKind::Pipe, line_info, lhs, rhs)
                }}
            },
            ValueView::LogicAnd { line_info, lhs, rhs } => {
                s.compeval_logic(false, line_info, *lhs, *rhs, fuel - 1)
            },
            ValueView::LogicOr { line_info, lhs, rhs } => {
                s.compeval_logic(true, line_info, *lhs, *rhs, fuel - 1)
            },
            ValueView::Index { line_info, lhs, index } => {
                s.compeval_index(is_lvalue, line_info, *lhs, *index, fuel - 1)
            },
            ValueView::DirectCall { line_info, fun_scope_id: _, args: _ } => {
                Err(
                    StopView::Errors(
                        s.not_trivial_because(line_info, "function call may have side effects"@),
                    ),
                )
            },
            ValueView::IndirectCall { line_info, lhs: _, args: _ } => {
                Err(
                    StopView::Errors(
                        s.not_trivial_because(line_info, "function call may have side effects"@),
                    ),
                )
            },
            ValueView::IfElse { line_info, cond, then_ctx, else_ctx } => {
                match s.compeval_context(*cond, fuel - 1) { Err(e) => Err(e), Ok(cond) => {
                match s.truth_of(cond, line_info) { Err(e) => Err(e), Ok(truth) => {
                if truth {
                    s.compeval_context(*then_ctx, fuel - 1)
                } else {
                    s.compeval_context(*else_ctx, fuel - 1)
                }
                }}}}
            },
            ValueView::While { line_info, cond, body_ctx } => {
                match s.compeval_context(*cond, fuel - 1) { Err(e) => Err(e), Ok(cond) => {
                match s.truth_of(cond, line_info) { Err(e) => Err(e), Ok(truth) => {
                if !truth {
                    Ok(ContextView::from_void())
                } else {
                match s.compeval_context(*body_ctx, fuel - 1) { Err(e) => Err(e), Ok(body) => {
                Err(StopView::Unsupported("the loop does not end"@))
                }}}}}}}
            },
            ValueView::Block(ctxs) => {
                s.compeval_block(ctxs, fuel - 1, 0)
            },
            ValueView::Ret(ctx) => {
                match s.compeval_context(*ctx, fuel - 1) { Err(e) => Err(e), Ok(ignored) => {
                Ok(ContextView::from_noreturn())
                }}
            },
            ValueView::RetVoid => {
                Ok(ContextView::from_noreturn())
            },
            ValueView::Eval(ctx) => {
                match s.compeval_context(*ctx, fuel - 1) { Err(e) => Err(e), Ok(ignored) => {
                Ok(ContextView::from_void())
                }}
            },
            ValueView::Cast(from) => {
                match s.compeval_context(*from, fuel - 1) { Err(e) => Err(e), Ok(from) => {
                s.fold_cast(from, taipe)
                }}
            },
            _ => {
                Err(StopView::Unsupported("not yet implemented"@))
            },
        }
        }
    }

    /// The negated value.
    #[verifier::opaque]
    pub open spec fn fold_negate(
        self,
        line: Span,
        ctx: ContextView,
    ) -> Result<ContextView, StopView>
    {
        let s = self;
        if !(ctx.taipe.is_signed_integer() || ctx.taipe.is_float()) {
            Err(StopView::Unsupported("probably some analyzer bug"@))
        } else {
        match ctx.value {
            ValueView::Imm(imm) => {
                if !imm.can_negate() {
                    Err(StopView::Unsupported("attempt to negate with overflow"@))
                } else {
                Ok(ContextView::make(false, ctx.taipe.remove_const(), ValueView::Imm(imm.negate())))
                }
            },
            _ => {
                Err(StopView::Errors(s.not_trivial(line)))
            },
        }
        }
    }

    /// The value with its bits flipped.
    #[verifier::opaque]
    pub open spec fn fold_flip_bits(
        self,
        line: Span,
        ctx: ContextView,
    ) -> Result<ContextView, StopView>
    {
        let s = self;
        if !ctx.taipe.is_integer() {
            Err(StopView::Unsupported("probably some analyzer bug"@))
        } else {
        match ctx.value {
            ValueView::Imm(imm) => {
                if !imm.is_integer() {
                    Err(StopView::Unsupported("probably some analyzer bug"@))
                } else {
                Ok(
                    ContextView::make(
                        false,
                        ctx.taipe.remove_const(),
                        ValueView::Imm(imm.flip_bits()),
                    ),
                )
                }
            },
            _ => {
                Err(StopView::Errors(s.not_trivial(line)))
            },
        }
        }
    }

    /// Evaluates the items of an array.
    #[verifier::opaque]
    pub open spec fn compeval_array(
        self,
        item: TypeView,
        values: Seq<ValueView>,
        folded: Seq<ValueView>,
        fuel: int,
        i: int,
    ) -> Result<ValueView, StopView>
        decreases fuel, 4nat, values.len() - i,
    {
        let s = self;
        if i < 0 || i >= values.len() {
            Ok(ValueView::Array(folded))
        } else {
        match s.compeval_trivial_impl(false, item, values[i], fuel) { Err(e) => Err(e), Ok(ctx) => {
        s.compeval_array(item, values, folded.push(ctx.value), fuel, i + 1)
        }}}
    }

    /// Evaluates the items of a tuple.
    #[verifier::opaque]
    pub open spec fn compeval_tuple(
        self,
        types: Seq<TypeView>,
        values: Seq<ValueView>,
        folded: Seq<ValueView>,
        fuel: int,
        i: int,
    ) -> Result<ValueView, StopView>
        decreases fuel, 4nat, values.len() - i,
    {
        let s = self;
        if i < 0 || i >= values.len() {
            Ok(ValueView::Tuple(folded))
        } else {
        match s.compeval_trivial_impl(false, types[i], values[i], fuel) {
            Err(e) => Err(e), Ok(ctx) => {
        s.compeval_tuple(types, values, folded.push(ctx.value), fuel, i + 1)
        }}}
    }

    /// Evaluates a short-circuiting operator: a left operand that equals `decisive` is the
    /// result, and the right operand is not evaluated.
    #[verifier::opaque]
    pub open spec fn compeval_logic(
        self,
        decisive: bool,
        line: Span,
        lhs: ContextView,
        rhs: ContextView,
        fuel: int,
    ) -> Result<ContextView, StopView>
        decreases fuel, 3nat, 0int,
    {
        let s = self;
        if !(lhs.taipe.is_bool() && rhs.taipe.is_bool()) {
            Err(StopView::Unsupported("probably some analyzer bug"@))
        } else {
        match s.compeval_context(lhs, fuel) { Err(e) => Err(e), Ok(left) => {
        match s.truth_of(left, line) { Err(e) => Err(e), Ok(truth) => {
        if truth == decisive {
            Ok(ContextView::from_bool(decisive))
        } else {
        match s.compeval_context(rhs, fuel) { Err(e) => Err(e), Ok(right) => {
        match s.truth_of(right, line) { Err(e) => Err(e), Ok(truth) => {
        Ok(ContextView::from_bool(truth))
        }}}}}}}}}}
    }

    /// Evaluates an item of an array or a tuple.
    #[verifier::opaque]
    pub open spec fn compeval_index(
        self,
        is_lvalue: bool,
        line: Span,
        lhs: ContextView,
        index: ContextView,
        fuel: int,
    ) -> Result<ContextView, StopView>
        decreases fuel, 4nat, 0int,
    {
        let s = self;
        match s.compeval_pair(lhs, index, fuel) { Err(e) => Err(e), Ok((lhs, index)) => {
        match index.value {
            ValueView::Imm(imm) => {
                match imm.to_usize() { None => {
                    Err(StopView::Unsupported("probably some analyzer bug"@))
                }, Some(place) => {
                match lhs.value {
                    ValueView::Array(values) => {
                        match s.item_type(lhs.taipe) { Err(e) => Err(e), Ok(item) => {
                        match nth_value(values, place) { None => {
                            Err(StopView::Unsupported("probably some analyzer bug"@))
                        }, Some(value) => {
                        s.compeval_trivial_impl(is_lvalue, item, value, fuel)
                        }}}}
                    },
                    ValueView::Tuple(values) => {
                        match s.tuple_type(lhs.taipe, place) { Err(e) => Err(e), Ok(item) => {
                        match nth_value(values, place) { None => {
                            Err(StopView::Unsupported("probably some analyzer bug"@))
                        }, Some(value) => {
                        s.compeval_trivial_impl(is_lvalue, item, value, fuel)
                        }}}}
                    },
                    _ => {
                        Err(StopView::Errors(s.not_trivial(line)))
                    },
                }
                }}
            },
            _ => {
                Err(StopView::Errors(s.not_trivial(line)))
            },
        }
        }}
    }

    /// Evaluates the parts of a block one after the other. The last one is the value.
    #[verifier::opaque]
    pub open spec fn compeval_block(
        self,
        ctxs: Seq<ContextView>,
        fuel: int,
        i: int,
    ) -> Result<ContextView, StopView>
        decreases fuel, 4nat, ctxs.len() - i,
    {
        let s = self;
        if i < 0 || i >= ctxs.len() {
            Ok(ContextView::from_void())
        } else {
        match s.compeval_context(ctxs[i], fuel) { Err(e) => Err(e), Ok(ctx) => {
        if i + 1 >= ctxs.len() {
            Ok(ctx)
        } else {
        s.compeval_block(ctxs, fuel, i + 1)
        }}}}
    }
}

impl<'a> Analyzer<'a> {
    /// The report that an expression cannot be evaluated.
    pub(crate) fn not_trivial(
        &self,
        line: LineInfo,
    ) -> (r: CompileError)
        requires
            self@.wf(),
        ensures
            r@ == self@.not_trivial(line@),
    {
        broadcast use group_analyzer;

        proof {
            reveal(AnalyzerView::not_trivial);
        }
        self.make_err("could not evaluate expression trivially at compile time", line)
    }

    /// The report that an expression cannot be evaluated, and why.
    pub(crate) fn not_trivial_because(
        &self,
        line: LineInfo,
        why: &str,
    ) -> (r: CompileError)
        requires
            self@.wf(),
        ensures
            r@ == self@.not_trivial_because(line@, why@),
    {
        broadcast use group_analyzer;

        proof {
            reveal(AnalyzerView::not_trivial_because);
        }
        CompileError::pair(self.not_trivial(line), self.make_note_no_path(why))
    }

    /// The value of an arithmetic operator on two values.
    pub(crate) fn fold_arithmetic(
        &self,
        op: TokenKind,
        line: LineInfo,
        lhs: Context,
        rhs: Context,
    ) -> (r: Result<Context, Stop>)
        requires
            self@.wf(),
        ensures
            outcome(r) == self@.fold_arithmetic(op, line@, lhs@, rhs@),
    {
        broadcast use group_analyzer;

        proof {
            reveal(AnalyzerView::fold_arithmetic);
            reveal(Context::model);
            reveal(Value::model);
        }
        if !lhs.taipe.remove_const().same(&rhs.taipe.remove_const()) {
            return Err(Stop::Unsupported("probably some analyzer bug".to_owned()));
        }
        let taipe = lhs.taipe.remove_const();
        match (&lhs.value, &rhs.value) {
            (Value::Imm(left), Value::Imm(right)) => {
                if !left.can_calculate(right) {
                    return Err(Stop::Unsupported("probably some analyzer bug".to_owned()));
                }
                let folded = match self.fold_imm(op, left.copy(), right.copy()) {
                    Ok(v) => v,
                    Err(e) => {
                        return Err(e);
                    },
                };
                match folded {
                    Some(imm) => {
                        Ok(Context::make(false, taipe, Value::Imm(imm)))
                    },
                    None => {
                        Err(Stop::Errors(self.make_err("detected integer overflow", line)))
                    },
                }
            },
            _ => {
                Err(Stop::Errors(self.not_trivial(line)))
            },
        }
    }

    /// The value of an arithmetic operator on two immediate values of the same type, if it
    /// can be held.
    pub(crate) fn fold_imm(
        &self,
        op: TokenKind,
        lhs: Imm,
        rhs: Imm,
    ) -> (r: Result<Option<Imm>, Stop>)
        requires
            self@.wf(),
            lhs@.can_calculate(rhs@),
        ensures
            option_outcome(r) == self@.fold_imm(op, lhs@, rhs@),
    {
        broadcast use group_analyzer;

        proof {
            reveal(AnalyzerView::fold_imm);
        }
        match op {
            TokenKind::Plus => {
                Ok(lhs.add(rhs))
            },
            TokenKind::Minus => {
                Ok(lhs.sub(rhs))
            },
            TokenKind::Star => {
                Ok(lhs.mul(rhs))
            },
            TokenKind::Slash => {
                Ok(lhs.div(rhs))
            },
            TokenKind::Percent => {
                if !lhs.same_int_kind(&rhs) {
                    return Err(Stop::Unsupported("probably some analyzer bug".to_owned()));
                }
                Ok(lhs.modulo(rhs))
            },
            _ => {
                Err(Stop::Unsupported("probably some analyzer bug".to_owned()))
            },
        }
    }

    /// The value of a shift.
    pub(crate) fn fold_shift(
        &self,
        op: TokenKind,
        line: LineInfo,
        lhs: Context,
        rhs: Context,
    ) -> (r: Result<Context, Stop>)
        requires
            self@.wf(),
        ensures
            outcome(r) == self@.fold_shift(op, line@, lhs@, rhs@),
    {
        broadcast use group_analyzer;

        proof {
            reveal(AnalyzerView::fold_shift);
            reveal(Context::model);
            reveal(Value::model);
        }
        if !(lhs.taipe.is_integer() && rhs.taipe.same(&Type::Uint32)) {
            return Err(Stop::Unsupported("probably some analyzer bug".to_owned()));
        }
        let taipe = lhs.taipe.remove_const();
        match (&lhs.value, &rhs.value) {
            (Value::Imm(left), Value::Imm(right)) => {
                match right {
                    Imm::Uint32(_) => {
                        if !left.is_integer() {
                            return Err(Stop::Unsupported("probably some analyzer bug".to_owned()));
                        }
                        match op {
                            TokenKind::ShiftLeft => {
                                Ok(
                                    Context::make(
                                        false,
                                        taipe,
                                        Value::Imm(left.copy().shl(right.copy())),
                                    ),
                                )
                            },
                            _ => {
                                Ok(
                                    Context::make(
                                        false,
                                        taipe,
                                        Value::Imm(left.copy().shr(right.copy())),
                                    ),
                                )
                            },
                        }
                    },
                    _ => {
                        Err(Stop::Unsupported("probably some analyzer bug".to_owned()))
                    },
                }
            },
            _ => {
                Err(Stop::Errors(self.not_trivial(line)))
            },
        }
    }

    /// The value of a bitwise operator on two values.
    pub(crate) fn fold_bits(
        &self,
        op: TokenKind,
        line: LineInfo,
        lhs: Context,
        rhs: Context,
    ) -> (r: Result<Context, Stop>)
        requires
            self@.wf(),
        ensures
            outcome(r) == self@.fold_bits(op, line@, lhs@, rhs@),
    {
        broadcast use group_analyzer;

        proof {
            reveal(AnalyzerView::fold_bits);
            reveal(Context::model);
            reveal(Value::model);
        }
        if !lhs.taipe.remove_const().same(&rhs.taipe.remove_const()) || !lhs.taipe.is_integer() {
            return Err(Stop::Unsupported("probably some analyzer bug".to_owned()));
        }
        let taipe = lhs.taipe.remove_const();
        match (&lhs.value, &rhs.value) {
            (Value::Imm(left), Value::Imm(right)) => {
                if !left.same_int_kind(right) {
                    return Err(Stop::Unsupported("probably some analyzer bug".to_owned()));
                }
                match op {
                    TokenKind::Ampersand => {
                        Ok(
                            Context::make(
                                false,
                                taipe,
                                Value::Imm(left.copy().bit_and(right.copy())),
                            ),
                        )
                    },
                    TokenKind::Caret => {
                        Ok(
                            Context::make(
                                false,
                                taipe,
                                Value::Imm(left.copy().bit_xor(right.copy())),
                            ),
                        )
                    },
                    _ => {
                        Ok(
                            Context::make(
                                false,
                                taipe,
                                Value::Imm(left.copy().bit_or(right.copy())),
                            ),
                        )
                    },
                }
            },
            _ => {
                Err(Stop::Errors(self.not_trivial(line)))
            },
        }
    }

    /// The truth value that a value is.
    pub(crate) fn truth_of(
        &self,
        ctx: &Context,
        line: LineInfo,
    ) -> (r: Result<bool, Stop>)
        requires
            self@.wf(),
        ensures
            outcome(r) == self@.truth_of(ctx@, line@),
    {
        broadcast use group_analyzer;

        proof {
            reveal(AnalyzerView::truth_of);
            reveal(Context::model);
            reveal(Value::model);
        }
        if !ctx.taipe.is_bool() {
            return Err(Stop::Unsupported("probably some analyzer bug".to_owned()));
        }
        match &ctx.value {
            Value::Imm(Imm::Bool(b)) => {
                Ok(*b)
            },
            _ => {
                Err(Stop::Errors(self.not_trivial(line)))
            },
        }
    }

    /// The immediate value of a type for an integer, cut to the width of the type.
    pub(crate) fn cast_imm(
        &self,
        imm: &Imm,
        to: &Type,
    ) -> (r: Result<Imm, Stop>)
        requires
            self@.wf(),
        ensures
            outcome(r) == self@.cast_imm(imm@, to@),
    {
        broadcast use group_analyzer;

        proof {
            reveal(AnalyzerView::cast_imm);
        }
        if !imm.is_integer() {
            return Err(Stop::Unsupported("probably some analyzer bug".to_owned()));
        }
        match to.remove_const() {
            Type::Float32 => {
                Ok(Imm::Float32(imm.to_float()))
            },
            Type::Float64 => {
                Ok(Imm::Float64(imm.to_float()))
            },
            plain => {
                let Some(kind) = plain.int_kind() else {
                    return Err(Stop::Unsupported("probably some analyzer bug".to_owned()));
                };
                Ok(imm.cast_to(kind))
            },
        }
    }

    /// The immediate value of a floating point type for a floating point number.
    pub(crate) fn cast_float(
        &self,
        imm: Imm,
        to: &Type,
    ) -> (r: Result<Imm, Stop>)
        requires
            self@.wf(),
        ensures
            outcome(r) == self@.cast_float(imm@, to@),
    {
        broadcast use group_analyzer;

        proof {
            reveal(AnalyzerView::cast_float);
        }
        match to.remove_const() {
            Type::Float32 => {
                match imm {
                    Imm::Float32(value) => {
                        Ok(Imm::Float32(value))
                    },
                    Imm::Float64(value) => {
                        Ok(Imm::Float32(Float::Convert(Box::new(value))))
                    },
                    _ => {
                        Err(Stop::Unsupported("probably some analyzer bug".to_owned()))
                    },
                }
            },
            Type::Float64 => {
                match imm {
                    Imm::Float32(value) => {
                        Ok(Imm::Float64(Float::Convert(Box::new(value))))
                    },
                    Imm::Float64(value) => {
                        Ok(Imm::Float64(value))
                    },
                    _ => {
                        Err(Stop::Unsupported("probably some analyzer bug".to_owned()))
                    },
                }
            },
            _ => {
                Err(
                    Stop::Unsupported(
                        "a floating point number is not converted to an integer at compile time".to_owned(),
                    ),
                )
            },
        }
    }

    /// The value of a cast.
    pub(crate) fn fold_cast(
        &self,
        from: Context,
        to: &Type,
    ) -> (r: Result<Context, Stop>)
        requires
            self@.wf(),
        ensures
            outcome(r) == self@.fold_cast(from@, to@),
    {
        broadcast use group_analyzer;

        proof {
            reveal(AnalyzerView::fold_cast);
            reveal(Context::model);
            reveal(Value::model);
        }
        if from.taipe.is_signed_integer() {
            let imm = match self.imm_of(&from.value) {
                Ok(v) => v,
                Err(e) => {
                    return Err(e);
                },
            };
            if !imm.is_signed() {
                return Err(Stop::Unsupported("probably some analyzer bug".to_owned()));
            }
            let imm = match self.cast_imm(&imm, to) {
                Ok(v) => v,
                Err(e) => {
                    return Err(e);
                },
            };
            Ok(Context::make(false, to.copy(), Value::Imm(imm)))
        } else if from.taipe.is_unsigned_integer() {
            let imm = match self.imm_of(&from.value) {
                Ok(v) => v,
                Err(e) => {
                    return Err(e);
                },
            };
            if !imm.is_unsigned() {
                return Err(Stop::Unsupported("probably some analyzer bug".to_owned()));
            }
            let imm = match self.cast_imm(&imm, to) {
                Ok(v) => v,
                Err(e) => {
                    return Err(e);
                },
            };
            Ok(Context::make(false, to.copy(), Value::Imm(imm)))
        } else if from.taipe.is_float() {
            let imm = match self.imm_of(&from.value) {
                Ok(v) => v,
                Err(e) => {
                    return Err(e);
                },
            };
            let imm = match self.cast_float(imm, to) {
                Ok(v) => v,
                Err(e) => {
                    return Err(e);
                },
            };
            Ok(Context::make(false, to.copy(), Value::Imm(imm)))
        } else if from.taipe.is_array() && to.is_fat_ptr() {
            Ok(Context::make(false, to.copy(), from.value))
        } else {
            Err(Stop::Unsupported("probably some analyzer bug".to_owned()))
        }
    }

    /// The type of the items of an array or a fat pointer.
    pub(crate) fn item_type(
        &self,
        taipe: &Type,
    ) -> (r: Result<Type, Stop>)
        requires
            self@.wf(),
        ensures
            outcome(r) == self@.item_type(taipe@),
    {
        broadcast use group_analyzer;

        proof {
            reveal(AnalyzerView::item_type);
        }
        match taipe.remove_const() {
            Type::Array { count: _, taipe: item } => {
                Ok(*item)
            },
            Type::Fat(item) => {
                Ok(*item)
            },
            _ => {
                Err(Stop::Unsupported("probably some analyzer bug".to_owned()))
            },
        }
    }

    /// The types of the items of a tuple.
    pub(crate) fn tuple_type(
        &self,
        taipe: &Type,
        index: usize,
    ) -> (r: Result<Type, Stop>)
        requires
            self@.wf(),
        ensures
            outcome(r) == self@.tuple_type(taipe@, index),
    {
        broadcast use group_analyzer;

        proof {
            reveal(AnalyzerView::tuple_type);
        }
        match taipe.remove_const() {
            Type::Tuple(types) => {
                match type_at(&types, index) {
                    Some(item) => {
                        Ok(item.copy())
                    },
                    None => {
                        Err(Stop::Unsupported("probably some analyzer bug".to_owned()))
                    },
                }
            },
            _ => {
                Err(Stop::Unsupported("probably some analyzer bug".to_owned()))
            },
        }
    }

    /// The value of a global constant.
    pub(crate) fn global_value(
        &self,
        line: LineInfo,
        scope_id: &ScopeId,
        fuel: u64,
    ) -> (r: Result<Context, Stop>)
        requires
            self@.wf(),
        ensures
            outcome(r) == self@.global_value(line@, scope_id@, fuel as int),
        decreases fuel, 3nat,
    {
        broadcast use group_analyzer;

        proof {
            reveal(AnalyzerView::global_value);
            reveal(AnalyzerView::compeval_context);
            reveal(Context::model);
            reveal(Value::model);
        }
        let scope = match self.get_scope(scope_id) {
            Ok(v) => v,
            Err(e) => {
                return Err(e);
            },
        };
        match scope.kind {
            ScopeKind::Const => {
                match &scope.payload {
                    Payload::Global(ctx) => {
                        match &ctx.value {
                            Value::Imm(_) | Value::Array(_) | Value::Tuple(_) => {
                                Ok(ctx.copy())
                            },
                            _ => {
                                self.compeval_context(ctx, fuel)
                            },
                        }
                    },
                    _ => {
                        Err(Stop::Unsupported("probably some analyzer bug".to_owned()))
                    },
                }
            },
            _ => {
                Err(
                    Stop::Errors(
                        CompileError::pair(
                            self.make_err(
                                "accessing global variables is not allowed in trivial compeval context",
                                line,
                            ),
                            self.make_note_no_path("only accessing global constants is allowed"),
                        ),
                    ),
                )
            },
        }
    }

    /// Evaluates an expression that has no side effects.
    pub(crate) fn compeval_trivial(
        &self,
        ctx: &Context,
    ) -> (r: Result<Context, Stop>)
        requires
            self@.wf(),
        ensures
            outcome(r) == self@.compeval_trivial(ctx@),
    {
        broadcast use group_analyzer;

        proof {
            reveal(AnalyzerView::compeval_trivial);
        }
        self.compeval_context(ctx, 0xffff_ffff_ffff_ffff)
    }

    /// Evaluates a value with its type.
    pub(crate) fn compeval_context(
        &self,
        ctx: &Context,
        fuel: u64,
    ) -> (r: Result<Context, Stop>)
        requires
            self@.wf(),
        ensures
            outcome(r) == self@.compeval_context(ctx@, fuel as int),
        decreases fuel, 2nat,
    {
        broadcast use group_analyzer;

        proof {
            reveal(AnalyzerView::compeval_context);
            reveal(AnalyzerView::compeval_trivial_impl);
            reveal(Context::model);
            reveal(Value::model);
        }
        self.compeval_trivial_impl(ctx.is_lvalue, &ctx.taipe, &ctx.value, fuel)
    }

    /// Evaluates both operands of an operator.
    pub(crate) fn compeval_pair(
        &self,
        lhs: &Context,
        rhs: &Context,
        fuel: u64,
    ) -> (r: Result<(Context, Context), Stop>)
        requires
            self@.wf(),
        ensures
            outcome(r) == self@.compeval_pair(lhs@, rhs@, fuel as int),
        decreases fuel, 3nat,
    {
        broadcast use group_analyzer;

        proof {
            reveal(AnalyzerView::compeval_pair);
            reveal(AnalyzerView::compeval_context);
        }
        let left = match self.compeval_context(lhs, fuel) {
            Ok(v) => v,
            Err(e) => {
                return Err(e);
            },
        };
        let right = match self.compeval_context(rhs, fuel) {
            Ok(v) => v,
            Err(e) => {
                return Err(e);
            },
        };
        Ok((left, right))
    }

    /// Evaluates a value. What comes out is an immediate value, an array or a tuple.
    #[verifier::rlimit(40)]
    pub(crate) fn compeval_trivial_impl(
        &self,
        is_lvalue: bool,
        taipe: &Type,
        value: &Value,
        fuel: u64,
    ) -> (r: Result<Context, Stop>)
        requires
            self@.wf(),
        ensures
            outcome(r) == self@.compeval_trivial_impl(is_lvalue, taipe@, value@, fuel as int),
        decreases fuel, 1nat,
    {
        broadcast use group_analyzer;

        proof {
            reveal(AnalyzerView::compeval_trivial_impl);
            reveal(AnalyzerView::compeval_array);
            reveal(AnalyzerView::compeval_block);
            reveal(AnalyzerView::compeval_context);
            reveal(AnalyzerView::compeval_index);
            reveal(AnalyzerView::compeval_logic);
            reveal(AnalyzerView::compeval_pair);
            reveal(AnalyzerView::compeval_tuple);
            reveal(AnalyzerView::global_value);
            reveal(Context::model);
            reveal(Value::model);
        }
        if fuel == 0 {
            return Err(Stop::Unsupported("nested too deeply".to_owned()));
        }
        match value {
            Value::Imm(_) => {
                Ok(Context::make(is_lvalue, taipe.copy(), value.copy()))
            },
            Value::Array(values) => {
                match taipe {
                    Type::Array { count: _, taipe: item } => {
                        let array = match self.compeval_array(item, values, Vec::new(), fuel - 1) {
                            Ok(v) => v,
                            Err(e) => {
                                return Err(e);
                            },
                        };
                        Ok(Context::make(is_lvalue, taipe.copy(), array))
                    },
                    _ => {
                        Err(Stop::Unsupported("probably some analyzer bug".to_owned()))
                    },
                }
            },
            Value::Tuple(values) => {
                match taipe {
                    Type::Tuple(types) => {
                        proof {
                            assert(type_models(types@).len() == types@.len());
                                                    assert(
                                                        value_models(values@).len() == values@.len()
                                                    );
                        }
                        if types.len() != values.len() {
                            return Err(Stop::Unsupported("probably some analyzer bug".to_owned()));
                        }
                        let tuple = match self.compeval_tuple(types, values, Vec::new(), fuel - 1) {
                            Ok(v) => v,
                            Err(e) => {
                                return Err(e);
                            },
                        };
                        Ok(Context::make(is_lvalue, taipe.copy(), tuple))
                    },
                    _ => {
                        Err(Stop::Unsupported("probably some analyzer bug".to_owned()))
                    },
                }
            },
            Value::GetGlobal { line_info, scope_id } => {
                self.global_value(*line_info, scope_id, fuel - 1)
            },
            Value::GetLocal { line_info: _, scope_id: _ } | Value::GetField {
                line_info: _,
                lhs: _,
                scope_id: _,
            } => {
                Err(Stop::Unsupported("not yet implemented".to_owned()))
            },
            Value::SetGlobal { line_info, scope_id: _, rhs: _ } => {
                Err(
                    Stop::Errors(
                        self.not_trivial_because(
                            *line_info,
                            "setting global variables may produce side effects",
                        ),
                    ),
                )
            },
            Value::SetLocal { line_info, scope_id: _, rhs: _ } => {
                Err(
                    Stop::Errors(
                        self.not_trivial_because(
                            *line_info,
                            "setting local variables may produce side effects",
                        ),
                    ),
                )
            },
            Value::SetField { line_info, lhs: _, scope_id: _, rhs: _ } => {
                Err(
                    Stop::Errors(
                        self.not_trivial_because(
                            *line_info,
                            "setting fields may produce side effects",
                        ),
                    ),
                )
            },
            Value::Negate { line_info, ctx } => {
                let ctx = match self.compeval_context(ctx, fuel - 1) {
                    Ok(v) => v,
                    Err(e) => {
                        return Err(e);
                    },
                };
                self.fold_negate(*line_info, ctx)
            },
            Value::FlipBits { line_info, ctx } => {
                let ctx = match self.compeval_context(ctx, fuel - 1) {
                    Ok(v) => v,
                    Err(e) => {
                        return Err(e);
                    },
                };
                self.fold_flip_bits(*line_info, ctx)
            },
            Value::Not { line_info, ctx } => {
                let ctx = match self.compeval_context(ctx, fuel - 1) {
                    Ok(v) => v,
                    Err(e) => {
                        return Err(e);
                    },
                };
                let truth: bool = match self.truth_of(&ctx, *line_info) {
                    Ok(v) => v,
                    Err(e) => {
                        return Err(e);
                    },
                };
                Ok(Context::make(false, ctx.taipe.remove_const(), Value::Imm(Imm::Bool(!truth))))
            },
            Value::Add { line_info, lhs, rhs } => {
                let (lhs, rhs) = match self.compeval_pair(lhs, rhs, fuel - 1) {
                    Ok(v) => v,
                    Err(e) => {
                        return Err(e);
                    },
                };
                self.fold_arithmetic(TokenKind::Plus, *line_info, lhs, rhs)
            },
            Value::Sub { line_info, lhs, rhs } => {
                let (lhs, rhs) = match self.compeval_pair(lhs, rhs, fuel - 1) {
                    Ok(v) => v,
                    Err(e) => {
                        return Err(e);
                    },
                };
                self.fold_arithmetic(TokenKind::Minus, *line_info, lhs, rhs)
            },
            Value::Mul { line_info, lhs, rhs } => {
                let (lhs, rhs) = match self.compeval_pair(lhs, rhs, fuel - 1) {
                    Ok(v) => v,
                    Err(e) => {
                        return Err(e);
                    },
                };
                self.fold_arithmetic(TokenKind::Star, *line_info, lhs, rhs)
            },
            Value::Div { line_info, lhs, rhs } => {
                let (lhs, rhs) = match self.compeval_pair(lhs, rhs, fuel - 1) {
                    Ok(v) => v,
                    Err(e) => {
                        return Err(e);
                    },
                };
                self.fold_arithmetic(TokenKind::Slash, *line_info, lhs, rhs)
            },
            Value::Rem { line_info, lhs, rhs } => {
                let (lhs, rhs) = match self.compeval_pair(lhs, rhs, fuel - 1) {
                    Ok(v) => v,
                    Err(e) => {
                        return Err(e);
                    },
                };
                self.fold_arithmetic(TokenKind::Percent, *line_info, lhs, rhs)
            },
            Value::Shl { line_info, lhs, rhs } => {
                let (lhs, rhs) = match self.compeval_pair(lhs, rhs, fuel - 1) {
                    Ok(v) => v,
                    Err(e) => {
                        return Err(e);
                    },
                };
                self.fold_shift(TokenKind::ShiftLeft, *line_info, lhs, rhs)
            },
            Value::Shr { line_info, lhs, rhs } => {
                let (lhs, rhs) = match self.compeval_pair(lhs, rhs, fuel - 1) {
                    Ok(v) => v,
                    Err(e) => {
                        return Err(e);
                    },
                };
                self.fold_shift(TokenKind::ShiftRight, *line_info, lhs, rhs)
            },
            Value::BitAnd { line_info, lhs, rhs } => {
                let (lhs, rhs) = match self.compeval_pair(lhs, rhs, fuel - 1) {
                    Ok(v) => v,
                    Err(e) => {
                        return Err(e);
                    },
                };
                self.fold_bits(TokenKind::Ampersand, *line_info, lhs, rhs)
            },
            Value::BitXor { line_info, lhs, rhs } => {
                let (lhs, rhs) = match self.compeval_pair(lhs, rhs, fuel - 1) {
                    Ok(v) => v,
                    Err(e) => {
                        return Err(e);
                    },
                };
                self.fold_bits(TokenKind::Caret, *line_info, lhs, rhs)
            },
            Value::BitOr { line_info, lhs, rhs } => {
                let (lhs, rhs) = match self.compeval_pair(lhs, rhs, fuel - 1) {
                    Ok(v) => v,
                    Err(e) => {
                        return Err(e);
                    },
                };
                self.fold_bits(TokenKind::Pipe, *line_info, lhs, rhs)
            },
            Value::LogicAnd { line_info, lhs, rhs } => {
                self.compeval_logic(false, *line_info, lhs, rhs, fuel - 1)
            },
            Value::LogicOr { line_info, lhs, rhs } => {
                self.compeval_logic(true, *line_info, lhs, rhs, fuel - 1)
            },
            Value::Index { line_info, lhs, index } => {
                self.compeval_index(is_lvalue, *line_info, lhs, index, fuel - 1)
            },
            Value::DirectCall { line_info, fun_scope_id: _, args: _ } => {
                Err(
                    Stop::Errors(
                        self.not_trivial_because(*line_info, "function call may have side effects"),
                    ),
                )
            },
            Value::IndirectCall { line_info, lhs: _, args: _ } => {
                Err(
                    Stop::Errors(
                        self.not_trivial_because(*line_info, "function call may have side effects"),
                    ),
                )
            },
            Value::IfElse { line_info, cond, then_ctx, else_ctx } => {
                let cond = match self.compeval_context(cond, fuel - 1) {
                    Ok(v) => v,
                    Err(e) => {
                        return Err(e);
                    },
                };
                let truth: bool = match self.truth_of(&cond, *line_info) {
                    Ok(v) => v,
                    Err(e) => {
                        return Err(e);
                    },
                };
                if truth {
                    self.compeval_context(then_ctx, fuel - 1)
                } else {
                    self.compeval_context(else_ctx, fuel - 1)
                }
            },
            Value::While { line_info, cond, body_ctx } => {
                let cond = match self.compeval_context(cond, fuel - 1) {
                    Ok(v) => v,
                    Err(e) => {
                        return Err(e);
                    },
                };
                let truth: bool = match self.truth_of(&cond, *line_info) {
                    Ok(v) => v,
                    Err(e) => {
                        return Err(e);
                    },
                };
                if !truth {
                    return Ok(Context::from_void());
                }
                let body = match self.compeval_context(body_ctx, fuel - 1) {
                    Ok(v) => v,
                    Err(e) => {
                        return Err(e);
                    },
                };
                Err(Stop::Unsupported("the loop does not end".to_owned()))
            },
            Value::Block(ctxs) => {
                self.compeval_block(ctxs, fuel - 1)
            },
            Value::Ret(ctx) => {
                let ignored = match self.compeval_context(ctx, fuel - 1) {
                    Ok(v) => v,
                    Err(e) => {
                        return Err(e);
                    },
                };
                Ok(Context::from_noreturn())
            },
            Value::RetVoid => {
                Ok(Context::from_noreturn())
            },
            Value::Eval(ctx) => {
                let ignored = match self.compeval_context(ctx, fuel - 1) {
                    Ok(v) => v,
                    Err(e) => {
                        return Err(e);
                    },
                };
                Ok(Context::from_void())
            },
            Value::Cast(from) => {
                let from = match self.compeval_context(from, fuel - 1) {
                    Ok(v) => v,
                    Err(e) => {
                        return Err(e);
                    },
                };
                self.fold_cast(from, taipe)
            },
            _ => {
                Err(Stop::Unsupported("not yet implemented".to_owned()))
            },
        }
    }

    /// The negated value.
    pub(crate) fn fold_negate(
        &self,
        line: LineInfo,
        ctx: Context,
    ) -> (r: Result<Context, Stop>)
        requires
            self@.wf(),
        ensures
            outcome(r) == self@.fold_negate(line@, ctx@),
    {
        broadcast use group_analyzer;

        proof {
            reveal(AnalyzerView::fold_negate);
            reveal(Context::model);
            reveal(Value::model);
        }
        if !(ctx.taipe.is_signed_integer() || ctx.taipe.is_float()) {
            return Err(Stop::Unsupported("probably some analyzer bug".to_owned()));
        }
        match &ctx.value {
            Value::Imm(imm) => {
                if !imm.can_negate() {
                    return Err(Stop::Unsupported("attempt to negate with overflow".to_owned()));
                }
                Ok(Context::make(false, ctx.taipe.remove_const(), Value::Imm(imm.copy().negate())))
            },
            _ => {
                Err(Stop::Errors(self.not_trivial(line)))
            },
        }
    }

    /// The value with its bits flipped.
    pub(crate) fn fold_flip_bits(
        &self,
        line: LineInfo,
        ctx: Context,
    ) -> (r: Result<Context, Stop>)
        requires
            self@.wf(),
        ensures
            outcome(r) == self@.fold_flip_bits(line@, ctx@),
    {
        broadcast use group_analyzer;

        proof {
            reveal(AnalyzerView::fold_flip_bits);
            reveal(Context::model);
            reveal(Value::model);
        }
        if !ctx.taipe.is_integer() {
            return Err(Stop::Unsupported("probably some analyzer bug".to_owned()));
        }
        match &ctx.value {
            Value::Imm(imm) => {
                if !imm.is_integer() {
                    return Err(Stop::Unsupported("probably some analyzer bug".to_owned()));
                }
                Ok(
                    Context::make(
                        false,
                        ctx.taipe.remove_const(),
                        Value::Imm(imm.copy().flip_bits()),
                    ),
                )
            },
            _ => {
                Err(Stop::Errors(self.not_trivial(line)))
            },
        }
    }

    /// Evaluates the items of an array.
    #[verifier::loop_isolation(false)]
    pub(crate) fn compeval_array(
        &self,
        item: &Type,
        values: &Vec<Value>,
        folded: Vec<Value>,
        fuel: u64,
    ) -> (r: Result<Value, Stop>)
        requires
            self@.wf(),
        ensures
            outcome(r) == self@.compeval_array(
                item@,
                value_models(values@),
                value_models(folded@),
                fuel as int,
                0,
            ),
        decreases fuel, 4nat,
    {
        broadcast use group_analyzer;

        proof {
            reveal(AnalyzerView::compeval_array);
            reveal(AnalyzerView::compeval_trivial_impl);
            reveal(Context::model);
            reveal(Value::model);
        }
        let ghost goal = self@.compeval_array(
            item@,
            value_models(values@),
            value_models(folded@),
            fuel as int,
            0,
        );
        let mut folded: Vec<Value> = folded;
        let mut i: usize = 0;
        while i < values.len()
            invariant
                i <= values@.len(),
                goal == self@.compeval_array(
                    item@,
                    value_models(values@),
                    value_models(folded@),
                    fuel as int,
                    i as int,
                ),
                self@.wf(),
            decreases values@.len() - i,
        {
            proof {
                reveal(AnalyzerView::compeval_array);
                reveal(AnalyzerView::compeval_trivial_impl);
                reveal(Context::model);
                reveal(Value::model);
            }
            let ctx = match self.compeval_trivial_impl(false, item, &values[i], fuel) {
                Ok(v) => v,
                Err(e) => {
                    return Err(e);
                },
            };
            folded.push(ctx.value);
            i = i + 1;
        }
        Ok(Value::Array(folded))
    }

    /// Evaluates the items of a tuple.
    #[verifier::loop_isolation(false)]
    pub(crate) fn compeval_tuple(
        &self,
        types: &Vec<Type>,
        values: &Vec<Value>,
        folded: Vec<Value>,
        fuel: u64,
    ) -> (r: Result<Value, Stop>)
        requires
            self@.wf(),
            types@.len() == values@.len(),
        ensures
            outcome(r) == self@.compeval_tuple(
                type_models(types@),
                value_models(values@),
                value_models(folded@),
                fuel as int,
                0,
            ),
        decreases fuel, 4nat,
    {
        broadcast use group_analyzer;

        proof {
            reveal(AnalyzerView::compeval_tuple);
            reveal(AnalyzerView::compeval_trivial_impl);
            reveal(Context::model);
            reveal(Value::model);
        }
        let ghost goal = self@.compeval_tuple(
            type_models(types@),
            value_models(values@),
            value_models(folded@),
            fuel as int,
            0,
        );
        let mut folded: Vec<Value> = folded;
        let mut i: usize = 0;
        while i < values.len()
            invariant
                i <= values@.len(),
                goal == self@.compeval_tuple(
                    type_models(types@),
                    value_models(values@),
                    value_models(folded@),
                    fuel as int,
                    i as int,
                ),
                self@.wf(),
                types@.len() == values@.len(),
            decreases values@.len() - i,
        {
            proof {
                reveal(AnalyzerView::compeval_tuple);
                reveal(AnalyzerView::compeval_trivial_impl);
                reveal(Context::model);
                reveal(Value::model);
            }
            let ctx = match self.compeval_trivial_impl(false, &types[i], &values[i], fuel) {
                Ok(v) => v,
                Err(e) => {
                    return Err(e);
                },
            };
            folded.push(ctx.value);
            i = i + 1;
        }
        Ok(Value::Tuple(folded))
    }

    /// Evaluates a short-circuiting operator: a left operand that equals `decisive` is the
    /// result, and the right operand is not evaluated.
    pub(crate) fn compeval_logic(
        &self,
        decisive: bool,
        line: LineInfo,
        lhs: &Context,
        rhs: &Context,
        fuel: u64,
    ) -> (r: Result<Context, Stop>)
        requires
            self@.wf(),
        ensures
            outcome(r) == self@.compeval_logic(decisive, line@, lhs@, rhs@, fuel as int),
        decreases fuel, 3nat,
    {
        broadcast use group_analyzer;

        proof {
            reveal(AnalyzerView::compeval_logic);
            reveal(AnalyzerView::compeval_context);
            reveal(Context::model);
            reveal(Value::model);
        }
        if !(lhs.taipe.is_bool() && rhs.taipe.is_bool()) {
            return Err(Stop::Unsupported("probably some analyzer bug".to_owned()));
        }
        let left = match self.compeval_context(lhs, fuel) {
            Ok(v) => v,
            Err(e) => {
                return Err(e);
            },
        };
        let truth: bool = match self.truth_of(&left, line) {
            Ok(v) => v,
            Err(e) => {
                return Err(e);
            },
        };
        if truth == decisive {
            return Ok(Context::from_bool(decisive));
        }
        let right = match self.compeval_context(rhs, fuel) {
            Ok(v) => v,
            Err(e) => {
                return Err(e);
            },
        };
        let truth: bool = match self.truth_of(&right, line) {
            Ok(v) => v,
            Err(e) => {
                return Err(e);
            },
        };
        Ok(Context::from_bool(truth))
    }

    /// Evaluates an item of an array or a tuple.
    pub(crate) fn compeval_index(
        &self,
        is_lvalue: bool,
        line: LineInfo,
        lhs: &Context,
        index: &Context,
        fuel: u64,
    ) -> (r: Result<Context, Stop>)
        requires
            self@.wf(),
        ensures
            outcome(r) == self@.compeval_index(is_lvalue, line@, lhs@, index@, fuel as int),
        decreases fuel, 4nat,
    {
        broadcast use group_analyzer;

        proof {
            reveal(AnalyzerView::compeval_index);
            reveal(AnalyzerView::compeval_pair);
            reveal(AnalyzerView::compeval_trivial_impl);
            reveal(Context::model);
            reveal(Value::model);
        }
        let (lhs, index) = match self.compeval_pair(lhs, index, fuel) {
            Ok(v) => v,
            Err(e) => {
                return Err(e);
            },
        };
        match &index.value {
            Value::Imm(imm) => {
                let Some(place) = imm.to_usize() else {
                    return Err(Stop::Unsupported("probably some analyzer bug".to_owned()));
                };
                match &lhs.value {
                    Value::Array(values) => {
                        let item = match self.item_type(&lhs.taipe) {
                            Ok(v) => v,
                            Err(e) => {
                                return Err(e);
                            },
                        };
                        let Some(value) = value_at(values, place) else {
                            return Err(Stop::Unsupported("probably some analyzer bug".to_owned()));
                        };
                        self.compeval_trivial_impl(is_lvalue, &item, value, fuel)
                    },
                    Value::Tuple(values) => {
                        let item = match self.tuple_type(&lhs.taipe, place) {
                            Ok(v) => v,
                            Err(e) => {
                                return Err(e);
                            },
                        };
                        let Some(value) = value_at(values, place) else {
                            return Err(Stop::Unsupported("probably some analyzer bug".to_owned()));
                        };
                        self.compeval_trivial_impl(is_lvalue, &item, value, fuel)
                    },
                    _ => {
                        Err(Stop::Errors(self.not_trivial(line)))
                    },
                }
            },
            _ => {
                Err(Stop::Errors(self.not_trivial(line)))
            },
        }
    }

    /// Evaluates the parts of a block one after the other. The last one is the value.
    #[verifier::loop_isolation(false)]
    pub(crate) fn compeval_block(
        &self,
        ctxs: &Vec<Context>,
        fuel: u64,
    ) -> (r: Result<Context, Stop>)
        requires
            self@.wf(),
        ensures
            outcome(r) == self@.compeval_block(context_models(ctxs@), fuel as int, 0),
        decreases fuel, 4nat,
    {
        broadcast use group_analyzer;

        proof {
            reveal(AnalyzerView::compeval_block);
            reveal(AnalyzerView::compeval_context);
        }
        let ghost goal = self@.compeval_block(context_models(ctxs@), fuel as int, 0);
        let mut i: usize = 0;
        while i < ctxs.len()
            invariant
                i <= ctxs@.len(),
                goal == self@.compeval_block(context_models(ctxs@), fuel as int, i as int),
                self@.wf(),
            decreases ctxs@.len() - i,
        {
            proof {
                reveal(AnalyzerView::compeval_block);
                reveal(AnalyzerView::compeval_context);
            }
            let ctx = match self.compeval_context(&ctxs[i], fuel) {
                Ok(v) => v,
                Err(e) => {
                    return Err(e);
                },
            };
            if i + 1 >= ctxs.len() {
                return Ok(ctx);
            }
            i = i + 1;
        }
        Ok(Context::from_void())
    }
}

} // verus!
