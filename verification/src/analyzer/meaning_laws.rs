use vstd::prelude::*;

use crate::analyzer::AnalyzerView;
use crate::ast;
use crate::ast::{ExprView, StmtView};
use crate::common::Span;
use crate::context::{
    kind_max, kind_min, ContextView, FloatView, ImmView, IntKind, ParamView, TypeView, ValueView,
};
use crate::token::{TokenKind, TokenSuffix, TokenValueView, TokenView};

verus! {

/// Whether an immediate value is an integer literal, in the type that the literal got.
pub open spec fn literal_of(number: int, imm: ImmView) -> bool {
    match imm {
        ImmView::VarInt(n) => n == number,
        ImmView::Float32(f) => f == FloatView::FromInt(number),
        ImmView::Float64(f) => f == FloatView::FromInt(number),
        _ => imm.int_kind() is Some && imm.int_value() == number,
    }
}

/// Whether a value is another one, or the other one is an integer literal and got a type.
pub open spec fn settled(a: ContextView, b: ContextView) -> bool {
    ||| b == a
    ||| is_literal(a) && b.value is Imm && literal_of(number_of(a), b.value->Imm_0)
}

/// Whether a value is an integer literal.
pub open spec fn is_literal(a: ContextView) -> bool {
    a.value matches ValueView::Imm(ImmView::VarInt(_))
}

/// The number that an integer literal is.
pub open spec fn number_of(a: ContextView) -> int {
    a.value->Imm_0->VarInt_0
}

/// Whether what is assigned is a value: as it is, cast to the type that it is assigned to, or as
/// an integer literal that got this type. Of what does not return there is no value.
pub open spec fn assigned_from(a: ContextView, b: ContextView) -> bool {
    ||| b.value == a.value
    ||| b.value matches ValueView::Cast(c) && (c.value == a.value || (is_literal(a) && c.value
        is Imm && literal_of(number_of(a), c.value->Imm_0)))
    ||| is_literal(a) && b.value is Imm && literal_of(number_of(a), b.value->Imm_0)
    ||| a.taipe.remove_const() is Noreturn && b.value == ValueView::from_nil()
}

/// Whether an instruction does what an operator says, with its operands in their order.
pub open spec fn is_operation(
    kind: TokenKind,
    l: ContextView,
    r: ContextView,
    value: ValueView,
) -> bool {
    match value {
        ValueView::LogicAnd { line_info: _, lhs, rhs } => kind == TokenKind::And && *lhs == l
            && *rhs == r,
        ValueView::LogicOr { line_info: _, lhs, rhs } => kind == TokenKind::Or && *lhs == l && *rhs
            == r,
        ValueView::Eq { line_info: _, lhs, rhs } => kind == TokenKind::EqEq && *lhs == l && *rhs
            == r,
        ValueView::Ne { line_info: _, lhs, rhs } => kind == TokenKind::NotEq && *lhs == l && *rhs
            == r,
        ValueView::Lt { line_info: _, lhs, rhs } => kind == TokenKind::LAngle && *lhs == l && *rhs
            == r,
        ValueView::Gt { line_info: _, lhs, rhs } => kind == TokenKind::RAngle && *lhs == l && *rhs
            == r,
        ValueView::Le { line_info: _, lhs, rhs } => kind == TokenKind::LessEq && *lhs == l && *rhs
            == r,
        ValueView::Ge { line_info: _, lhs, rhs } => kind == TokenKind::GreaterEq && *lhs == l
            && *rhs == r,
        ValueView::BitAnd { line_info: _, lhs, rhs } => kind == TokenKind::Ampersand && *lhs == l
            && *rhs == r,
        ValueView::BitXor { line_info: _, lhs, rhs } => kind == TokenKind::Caret && *lhs == l
            && *rhs == r,
        ValueView::BitOr { line_info: _, lhs, rhs } => kind == TokenKind::Pipe && *lhs == l && *rhs
            == r,
        ValueView::Shl { line_info: _, lhs, rhs } => kind == TokenKind::ShiftLeft && *lhs == l
            && *rhs == r,
        ValueView::Shr { line_info: _, lhs, rhs } => kind == TokenKind::ShiftRight && *lhs == l
            && *rhs == r,
        ValueView::Add { line_info: _, lhs, rhs } => kind == TokenKind::Plus && *lhs == l && *rhs
            == r,
        ValueView::Sub { line_info: _, lhs, rhs } => kind == TokenKind::Minus && *lhs == l && *rhs
            == r,
        ValueView::Mul { line_info: _, lhs, rhs } => kind == TokenKind::Star && *lhs == l && *rhs
            == r,
        ValueView::Div { line_info: _, lhs, rhs } => kind == TokenKind::Slash && *lhs == l && *rhs
            == r,
        ValueView::Rem { line_info: _, lhs, rhs } => kind == TokenKind::Percent && *lhs == l && *rhs
            == r,
        _ => false,
    }
}

/// Whether a value is what an operator makes of two operands. Types are compared at once.
pub open spec fn is_binary(
    kind: TokenKind,
    l: ContextView,
    r: ContextView,
    a: ContextView,
    b: ContextView,
    ctx: ContextView,
) -> bool {
    &&& !ctx.is_lvalue
    &&& settled(l, a)
    &&& settled(r, b)
    &&& is_operation(kind, a, b, ctx.value) || (a.taipe.remove_const() is Typedef
        && ctx.value is Imm)
}

/// Whether a value is what an operator makes of one operand.
pub open spec fn is_unary(kind: TokenKind, inner: ContextView, ctx: ContextView) -> bool {
    match kind {
        TokenKind::Minus => if is_literal(inner) && inner.taipe.remove_const() is VarInt {
            ctx.value is Imm && (ctx.value->Imm_0.int_kind() is Some
                ==> ctx.value->Imm_0.int_value() == -number_of(inner))
        } else {
            ctx.value matches ValueView::Negate { line_info: _, ctx: c } && *c == inner
        },
        TokenKind::Tilde => if is_literal(inner) && inner.taipe.remove_const() is VarInt {
            ctx.value is Imm && (ctx.value->Imm_0.int_kind() matches Some(kind)
                ==> ctx.value->Imm_0.int_value() == kind_max(kind) - (number_of(inner) - kind_min(
                kind,
            )))
        } else {
            ctx.value matches ValueView::FlipBits { line_info: _, ctx: c } && *c == inner
        },
        TokenKind::Star => ctx.is_lvalue && (ctx.value matches ValueView::Deref {
            line_info: _,
            ctx: c,
        } && *c == inner),
        TokenKind::Ampersand => ctx.value matches ValueView::AddrOf { line_info: _, ctx: c }
            && settled(inner, *c),
        TokenKind::Not => ctx.value matches ValueView::Not { line_info: _, ctx: c } && *c == inner,
        TokenKind::Typeof => ctx.value == ValueView::Imm(ImmView::Type(inner.taipe)),
        TokenKind::Sizeof | TokenKind::Alignof => ctx.value is Imm,
        _ => false,
    }
}

/// The kind of integers that a suffix of a literal asks for, unless the machine decides.
pub open spec fn suffix_kind(suffix: TokenSuffix) -> Option<IntKind> {
    match suffix {
        TokenSuffix::I8 => Some(IntKind::Int8),
        TokenSuffix::I16 => Some(IntKind::Int16),
        TokenSuffix::I32 => Some(IntKind::Int32),
        TokenSuffix::I64 => Some(IntKind::Int64),
        TokenSuffix::I128 => Some(IntKind::Int128),
        TokenSuffix::U8 => Some(IntKind::Uint8),
        TokenSuffix::U16 => Some(IntKind::Uint16),
        TokenSuffix::U32 => Some(IntKind::Uint32),
        TokenSuffix::U64 => Some(IntKind::Uint64),
        TokenSuffix::U128 => Some(IntKind::Uint128),
        _ => None,
    }
}

/// Whether a value is what a literal says. A name can stand for anything.
pub open spec fn literal_means(token: TokenView, ctx: ContextView) -> bool {
    match token.kind {
        TokenKind::True => ctx.value == ValueView::Imm(ImmView::Bool(true)) && ctx.taipe is Bool,
        TokenKind::False => ctx.value == ValueView::Imm(ImmView::Bool(false)) && ctx.taipe is Bool,
        TokenKind::StringLit => token.value matches Some(TokenValueView::String(text)) && ctx
            == ContextView::from_str(text),
        TokenKind::IntLit => token.value matches Some(TokenValueView::Int { integral, suffix }) && {
            &&& ctx.value is Imm
            &&& literal_of(integral, ctx.value->Imm_0)
            &&& suffix is None ==> ctx.taipe is VarInt && is_literal(ctx)
            &&& (suffix is Some && suffix_kind(suffix->0) is Some) ==> ctx.taipe.int_kind()
                == suffix_kind(suffix->0)
        },
        TokenKind::FloatLit => token.value matches Some(
            TokenValueView::Float { integral: _, fractional: _, mantissa: _, suffix },
        ) && {
            &&& suffix == Some(TokenSuffix::F32) ==> ctx.taipe is Float32
            &&& suffix != Some(TokenSuffix::F32) ==> ctx.taipe is Float64
        },
        _ => true,
    }
}

/// Any value of a part.
pub open spec fn part(a: ContextView) -> bool {
    true
}

/// Any values of two parts.
pub open spec fn parts(a: ContextView, b: ContextView) -> bool {
    true
}

/// Any values of two parts, and what they got.
pub open spec fn four_parts(
    a: ContextView,
    b: ContextView,
    c: ContextView,
    d: ContextView,
) -> bool {
    true
}

/// Whether an instruction assigns a value to what another value reads.
pub open spec fn is_assignment(place: ContextView, value: ContextView, ctx: ContextView) -> bool {
    match (place.value, ctx.value) {
        (
            ValueView::GetGlobal { line_info: _, scope_id },
            ValueView::SetGlobal { line_info: _, scope_id: id, rhs },
        ) => id == scope_id && *rhs == value,
        (
            ValueView::GetLocal { line_info: _, scope_id },
            ValueView::SetLocal { line_info: _, scope_id: id, rhs },
        ) => id == scope_id && *rhs == value,
        (
            ValueView::GetField { line_info: _, lhs, scope_id },
            ValueView::SetField { line_info: _, lhs: base, scope_id: id, rhs },
        ) => id == scope_id && base == lhs && *rhs == value,
        _ => false,
    }
}

/// The assignment of one place among several, or the only one.
pub open spec fn assignment_at(ctx: ContextView, count: nat, k: int) -> ContextView {
    if count == 1 {
        ctx
    } else {
        ctx.value->Block_0[k]
    }
}

/// Whether a type is what a written type says. A name can stand for any type.
#[verifier::opaque]
pub open spec fn type_means(node: ast::TypeView, t: TypeView) -> bool
    decreases node,
{
    match node {
        ast::TypeView::Path { items: _ } => true,
        ast::TypeView::Pointer { token: _, taipe } => t is Pointer && type_means(
            *taipe,
            *t->Pointer_0,
        ),
        ast::TypeView::Const { token: _, taipe } => {
            ||| t is Const && type_means(*taipe, *t->Const_0)
            ||| t.is_const() && type_means(*taipe, t)
        },
        ast::TypeView::Fat { line_info: _, taipe } => t is Fat && type_means(*taipe, *t->Fat_0),
        ast::TypeView::Paren { line_info: _, taipe } => type_means(*taipe, t),
        ast::TypeView::Array { line_info: _, taipe, expr: _ } => t is Array && type_means(
            *taipe,
            *t->Array_taipe,
        ),
        ast::TypeView::Tuple { line_info: _, types } => {
            &&& t is Tuple
            &&& t->Tuple_0.len() == types.len()
            &&& forall|k: int|
                0 <= k < types.len() ==> type_means(#[trigger] types[k], t->Tuple_0[k])
        },
        ast::TypeView::Function { line_info: _, params, ret } => {
            &&& t is Function
            &&& t->Function_params.len() == params.len()
            &&& type_means(*ret, *t->Function_ret)
            &&& forall|k: int|
                0 <= k < params.len() ==> type_means(
                    #[trigger] params[k],
                    t->Function_params[k].taipe,
                )
        },
        ast::TypeView::Literal(token) => match token.kind {
            TokenKind::Void => t is Void,
            TokenKind::Noreturn => t is Noreturn,
            TokenKind::Typedef => t is Typedef,
            _ => false,
        },
    }
}

/// Whether a value is what an expression says: the same operations on the same operands in the
/// same order. A name, a member and what is evaluated at once can be any value.
#[verifier::opaque]
pub open spec fn expr_means(e: ExprView, ctx: ContextView) -> bool
    decreases e, 5nat,
{
    match e {
        ExprView::Literal(token) => literal_means(token, ctx),
        ExprView::Paren { line_info: _, expr } => expr_means(*expr, ctx),
        ExprView::Unary { op, expr } => exists|inner: ContextView| #[trigger]
            part(inner) && expr_means(*expr, inner) && is_unary(op.kind, inner, ctx),
        ExprView::Binary { left, op, right } => exists|
            l: ContextView,
            r: ContextView,
            a: ContextView,
            b: ContextView,
        | #[trigger]
            four_parts(l, r, a, b) && expr_means(*left, l) && expr_means(*right, r) && is_binary(
                op.kind,
                l,
                r,
                a,
                b,
                ctx,
            ),
        ExprView::Cast { expr, taipe } => exists|inner: ContextView| #[trigger]
            part(inner) && expr_means(*expr, inner) && type_means(*taipe, ctx.taipe) && (settled(
                ContextView::make(ctx.is_lvalue, ctx.taipe, inner.value),
                ctx,
            ) || ctx.value == ValueView::Cast(Box::new(inner))),
        ExprView::Index { line_info: _, expr, items } => {
            &&& items.len() == 1
            &&& exists|base: ContextView, index: ContextView| #[trigger]
                parts(base, index) && expr_means(*expr, base) && expr_means(items[0], index) && (
                ctx.value matches ValueView::Index { line_info: _, lhs, index: place } && *lhs
                    == base && *place == index) && index.taipe.is_integer() && is_item(
                    base.taipe,
                    ctx.taipe,
                )
        },
        ExprView::Call { line_info: _, expr, args: _ } => exists|fun: ContextView| #[trigger]
            part(fun) && expr_means(*expr, fun) && ctx.value is DirectCall && (match fun.value {
                ValueView::GetGlobal { line_info: _, scope_id } => scope_id
                    == ctx.value->DirectCall_fun_scope_id,
                ValueView::GetLocal { line_info: _, scope_id } => scope_id
                    == ctx.value->DirectCall_fun_scope_id,
                _ => false,
            }),
        ExprView::Assign { lhses, op: _, rhses } => {
            &&& lhses.len() >= rhses.len()
            &&& rhses.len() != 1 ==> ctx.value is Block && ctx.value->Block_0.len() == rhses.len()
            &&& forall|k: int|
                0 <= k < rhses.len() ==> exists|l: ContextView, r: ContextView, v: ContextView|
                 #[trigger]
                    four_parts(l, r, v, v) && expr_means(lhses[k], l) && expr_means(
                        #[trigger] rhses[k],
                        r,
                    ) && assigned_from(r, v) && is_assignment(
                        l,
                        v,
                        assignment_at(ctx, rhses.len(), k),
                    )
        },
        ExprView::Tuple { line_info: _, exprs } => {
            &&& ctx.value is Tuple
            &&& ctx.taipe is Tuple
            &&& ctx.value->Tuple_0.len() == exprs.len()
            &&& ctx.taipe->Tuple_0.len() == exprs.len()
            &&& forall|k: int|
                0 <= k < exprs.len() ==> exists|inner: ContextView, item: ContextView| #[trigger]
                    parts(inner, item) && expr_means(#[trigger] exprs[k], inner) && settled(
                        inner,
                        item,
                    ) && item.value == ctx.value->Tuple_0[k] && item.taipe == ctx.taipe->Tuple_0[k]
        },
        ExprView::Block { line_info: _, stmts } => block_means(stmts, ctx),
        ExprView::ArrayLit { .. } => false,
        ExprView::Member { .. } | ExprView::Compeval { .. } => true,
    }
}

/// Whether a type is that of one of two ways: of both, or of the one that ends.
pub open spec fn is_choice(first: TypeView, second: TypeView, taipe: TypeView) -> bool {
    &&& first.is_noreturn() ==> taipe == second
    &&& !first.is_noreturn() ==> taipe == first
    &&& first == second || first.is_noreturn() || second.is_noreturn()
}

/// Whether a type is that of the items of an array or of what a fat pointer points to.
pub open spec fn is_item(base: TypeView, taipe: TypeView) -> bool {
    match base.remove_const() {
        TypeView::Array { count: _, taipe: item } => *item == taipe,
        TypeView::Fat(item) => *item == taipe,
        _ => false,
    }
}

/// A value without the instruction that drops it.
pub open spec fn kept(ctx: ContextView) -> ContextView {
    match ctx.value {
        ValueView::Eval(inner) => *inner,
        _ => ctx,
    }
}

/// Whether a value is what the statements of a block say, in their order, up to one that gives a
/// value or does not end.
#[verifier::opaque]
pub open spec fn block_means(stmts: Seq<StmtView>, ctx: ContextView) -> bool
    decreases stmts, 3nat,
{
    &&& ctx.value is Block
    &&& exists|n: int| #[trigger]
        reached(n) && 0 <= n <= stmts.len() && n <= ctx.value->Block_0.len() <= n + 1 && (n == 0
            ==> stmts.len() == 0 && gives_nothing(ctx)) && (ctx.value->Block_0.len() == n + 1
            ==> ctx.value->Block_0[n] == ContextView::from_void()) && forall|k: int|
            0 <= k < n ==> exists|c: ContextView| #[trigger]
                part(c) && stmt_means(#[trigger] stmts[k], c) && ctx.value->Block_0[k] == kept(c)
                    && goes_on(c, k, n, stmts.len() as int, ctx)
}

/// Whether a value is that of a block in which nothing stands.
pub open spec fn gives_nothing(ctx: ContextView) -> bool {
    ctx.value->Block_0.len() == 1 && ctx.taipe == TypeView::Void.add_const()
}

/// Whether the statements of a block are visited as far as their types say: those before the last
/// one that is visited give nothing, and the last one gives the block its type. It is the last one
/// of all, or does give something or does not end.
pub open spec fn goes_on(c: ContextView, k: int, n: int, count: int, ctx: ContextView) -> bool {
    if k < n - 1 {
        c.taipe.is_void()
    } else {
        &&& ctx.taipe == c.taipe.add_const()
        &&& (ctx.value->Block_0.len() == n + 1) == c.taipe.is_void()
        &&& n == count || !c.taipe.is_void() || c.taipe.is_noreturn()
    }
}

/// Any number of statements.
pub open spec fn reached(n: int) -> bool {
    true
}

/// Whether a value is what a statement says.
#[verifier::opaque]
pub open spec fn stmt_means(stmt: StmtView, ctx: ContextView) -> bool
    decreases stmt, 5nat,
{
    match stmt {
        StmtView::If { line_info: _, expr, then_body, else_body } => ctx.value matches
            ValueView::IfElse { line_info: _, cond, then_ctx, else_ctx } && {
            &&& expr_means(expr, *cond)
            &&& cond.taipe.is_bool()
            &&& stmt_means(*then_body, *then_ctx)
            &&& match else_body {
                None => *else_ctx == ContextView::from_void() && ctx.taipe is Void,
                Some(other) => stmt_means(*other, *else_ctx) && is_choice(
                    then_ctx.taipe,
                    else_ctx.taipe,
                    ctx.taipe,
                ),
            }
        },
        StmtView::While { line_info: _, label: _, expr, then_body } => ctx.value matches
            ValueView::While { line_info: _, cond, body_ctx } && {
            &&& ctx.taipe is Void
            &&& expr_means(expr, *cond)
            &&& cond.taipe.is_bool()
            &&& stmt_means(*then_body, *body_ctx)
        },
        StmtView::Block { line_info: _, stmts } => block_means(stmts, ctx),
        StmtView::Yield { token: _, expr } => exists|inner: ContextView| #[trigger]
            part(inner) && expr_means(expr, inner) && settled(inner, ctx),
        StmtView::Return { token: _, expr: None } => ctx.value is RetVoid && ctx.taipe is Noreturn,
        StmtView::Return { token: _, expr: Some(e) } => {
            &&& ctx.value is Ret
            &&& ctx.taipe is Noreturn
            &&& exists|inner: ContextView| #[trigger]
                part(inner) && expr_means(e, inner) && assigned_from(inner, *ctx.value->Ret_0)
        },
        StmtView::Expr(e) => ctx.value is Eval && expr_means(*e, *ctx.value->Eval_0),
        StmtView::Continue { .. } | StmtView::Break { .. } => ctx == ContextView::from_noreturn(),
        StmtView::Decl(_) | StmtView::Nop(_) => ctx == ContextView::from_void(),
    }
}

proof fn lemma_literal_typed(
    s: AnalyzerView,
    t: TypeView,
    imm: ImmView,
    line: Span,
    shown_as: Option<Seq<char>>,
)
    ensures
        s.transform_varint(t, imm, line, shown_as) matches Ok(r) ==> imm is VarInt && literal_of(
            imm->VarInt_0,
            r,
        ),
        s.transform_varint(t, imm, line, shown_as) matches Ok(r) ==> (t.int_kind() is Some
            ==> r.int_kind() == t.int_kind()),
    decreases t,
{
    reveal(AnalyzerView::transform_varint);
    if let TypeView::Const(inner) = t {
        lemma_literal_typed(s, *inner, imm, line, shown_as);
    }
}

proof fn lemma_promoted(
    s: AnalyzerView,
    lhs: ContextView,
    left: Span,
    rhs: ContextView,
    right: Span,
)
    ensures
        s.resolve_value_promotion(lhs, left, rhs, right) matches Ok((a, b)) ==> settled(lhs, a)
            && settled(rhs, b),
{
    reveal(AnalyzerView::resolve_value_promotion);
    reveal(AnalyzerView::transform_varint_to_int);
    reveal(AnalyzerView::imm_of);
    if let (Ok(l), Ok(r)) = (s.imm_of(lhs.value), s.imm_of(rhs.value)) {
        lemma_literal_typed(s, s.int_type(), l, left, Some("int"@));
        lemma_literal_typed(s, s.int_type(), r, right, Some("int"@));
    }
    if let Ok(l) = s.imm_of(lhs.value) {
        lemma_literal_typed(s, rhs.taipe, l, left, None);
    }
    if let Ok(r) = s.imm_of(rhs.value) {
        lemma_literal_typed(s, lhs.taipe, r, right, None);
    }
}

#[verifier::spinoff_prover]
proof fn lemma_binary_result(
    s: AnalyzerView,
    op: TokenView,
    lhs: ContextView,
    left: Span,
    rhs: ContextView,
    right: Span,
    line: Span,
)
    ensures
        s.binary_result(op, lhs, left, rhs, right, line) matches Ok(ctx) ==> exists|
            a: ContextView,
            b: ContextView,
        | #[trigger]
            parts(a, b) && is_binary(op.kind, lhs, rhs, a, b, ctx),
{
    reveal(AnalyzerView::binary_result);
    reveal(AnalyzerView::arithmetic_result);
    reveal(AnalyzerView::relational_result);
    reveal(AnalyzerView::binary_value);
    reveal(AnalyzerView::settle_shifted);
    reveal(AnalyzerView::settle_shift);
    reveal(AnalyzerView::transform_varint_to_int);
    reveal(AnalyzerView::imm_of);
    lemma_promoted(s, lhs, left, rhs, right);
    assert(parts(lhs, rhs));
    if let Ok((a, b)) = s.resolve_value_promotion(lhs, left, rhs, right) {
        assert(parts(a, b));
    }
    if let Ok(l) = s.imm_of(lhs.value) {
        lemma_literal_typed(s, s.int_type(), l, right, Some("int"@));
    }
    if let Ok(r) = s.imm_of(rhs.value) {
        lemma_literal_typed(s, TypeView::Uint32, r, right, None);
    }
    if let (Ok(a), Ok(b)) = (s.settle_shifted(lhs, right), s.settle_shift(rhs, right)) {
        assert(parts(a, b));
    }
}

pub(crate) proof fn lemma_assigned(
    s: AnalyzerView,
    lhs: Option<(TypeView, Span)>,
    eq_token: Option<TokenView>,
    rhs: ContextView,
    right: Span,
)
    ensures
        s.resolve_assign(lhs, eq_token, Some((rhs, right))) matches Ok(v) ==> assigned_from(rhs, v),
        s.resolve_assign(lhs, eq_token, Some((rhs, right))) matches Ok(v) ==> (lhs matches Some(
            (taipe, _),
        ) ==> v.taipe == taipe || v.taipe == taipe.remove_const().add_const()),
{
    reveal(AnalyzerView::resolve_assign);
    reveal(AnalyzerView::assign_value);
    reveal(AnalyzerView::settle_varint);
    reveal(AnalyzerView::resolve_implicit_cast);
    reveal(AnalyzerView::implicit_value);
    reveal(AnalyzerView::same_type_value);
    reveal(AnalyzerView::transform_varint_to_int);
    reveal(AnalyzerView::imm_of);
    if let Ok(r) = s.imm_of(rhs.value) {
        lemma_literal_typed(s, s.int_type(), r, right, Some("int"@));
        if let Some((taipe, _)) = lhs {
            lemma_literal_typed(s, taipe, r, right, None);
        }
    }
}

#[verifier::spinoff_prover]
proof fn lemma_unary_results(s: AnalyzerView, inner: ContextView, line: Span)
    ensures
        s.negate_result(inner, line) matches Ok(ctx) ==> is_unary(TokenKind::Minus, inner, ctx),
        s.flip_bits_result(inner, line) matches Ok(ctx) ==> is_unary(TokenKind::Tilde, inner, ctx),
        s.deref_result(inner, line) matches Ok(ctx) ==> is_unary(TokenKind::Star, inner, ctx),
        s.addr_of_result(inner, line) matches Ok(ctx) ==> is_unary(
            TokenKind::Ampersand,
            inner,
            ctx,
        ),
        s.not_result(inner, line) matches Ok(ctx) ==> is_unary(TokenKind::Not, inner, ctx),
        s.typeof_result(inner, line) matches Ok(ctx) ==> is_unary(TokenKind::Typeof, inner, ctx),
{
    reveal(AnalyzerView::negate_result);
    reveal(AnalyzerView::flip_bits_result);
    reveal(AnalyzerView::deref_result);
    reveal(AnalyzerView::addr_of_result);
    reveal(AnalyzerView::not_result);
    reveal(AnalyzerView::typeof_result);
    reveal(AnalyzerView::transform_varint_to_int);
    reveal(AnalyzerView::imm_of);
    if let Ok(l) = s.imm_of(inner.value) {
        lemma_literal_typed(s, s.int_type(), l, line, Some("int"@));
    }
}

proof fn lemma_settled_int(s: AnalyzerView, ctx: ContextView, node: ExprView)
    ensures
        s.settle_int(ctx, node) matches Ok(r) ==> settled(ctx, r),
{
    reveal(AnalyzerView::settle_int);
    reveal(AnalyzerView::transform_varint_to_int);
    reveal(AnalyzerView::imm_of);
    if let (Ok(l), Ok(line)) = (s.imm_of(ctx.value), node.line()) {
        lemma_literal_typed(s, s.int_type(), l, line, Some("int"@));
    }
}

#[verifier::spinoff_prover]
proof fn lemma_int_literal(s: AnalyzerView, token: TokenView)
    requires
        token.kind == TokenKind::IntLit,
    ensures
        s.int_literal(token) matches Ok(ctx) ==> literal_means(token, ctx),
{
    reveal(AnalyzerView::int_literal);
    reveal(AnalyzerView::suffix_type);
    if let Some(TokenValueView::Int { integral, suffix }) = token.value {
        let imm = ImmView::VarInt(integral);
        lemma_literal_typed(s, s.isize_type(), imm, token.line_info, Some("isize"@));
        lemma_literal_typed(s, s.usize_type(), imm, token.line_info, Some("usize"@));
        if let Some(other) = suffix {
            if let Some(taipe) = s.suffix_type(other) {
                lemma_literal_typed(s, taipe, imm, token.line_info, None);
            }
        }
    }
}

proof fn lemma_visit_type(s: AnalyzerView, node: ast::TypeView, fuel: int)
    ensures
        s.visit_type(node, fuel).1 matches Ok(t) ==> type_means(node, t),
    decreases fuel, 5nat, 0int,
{
    reveal(AnalyzerView::visit_type);
    reveal(AnalyzerView::visit_fun_type);
    reveal(AnalyzerView::visit_tuple_type);
    reveal(AnalyzerView::visit_expr);
    reveal(type_means);
    if fuel > 0 {
        match node {
            ast::TypeView::Const { token: _, taipe } => {
                lemma_visit_type(s, *taipe, fuel - 1);
            },
            ast::TypeView::Pointer { token: _, taipe } => {
                lemma_visit_type(s, *taipe, fuel - 1);
            },
            ast::TypeView::Array { line_info: _, taipe, expr: _ } => {
                lemma_visit_type(s, *taipe, fuel - 1);
            },
            ast::TypeView::Fat { line_info: _, taipe } => {
                lemma_visit_type(s, *taipe, fuel - 1);
            },
            ast::TypeView::Paren { line_info: _, taipe } => {
                lemma_visit_type(s, *taipe, fuel - 1);
            },
            ast::TypeView::Tuple { line_info: _, types } => {
                lemma_visit_tuple_type(s, types, seq![], fuel - 1, 0);
            },
            ast::TypeView::Function { line_info: _, params, ret } => {
                lemma_visit_fun_type(s, params, *ret, seq![], fuel - 1, 0);
            },
            _ => {},
        }
    }
}

#[verifier::spinoff_prover]
proof fn lemma_visit_tuple_type(
    s: AnalyzerView,
    nodes: Seq<ast::TypeView>,
    types: Seq<TypeView>,
    fuel: int,
    i: int,
)
    requires
        0 <= i <= nodes.len(),
        types.len() == i,
        forall|k: int| 0 <= k < i ==> type_means(#[trigger] nodes[k], types[k]),
    ensures
        s.visit_tuple_type(nodes, types, fuel, i).1 matches Ok(t) ==> {
            &&& t is Tuple
            &&& t->Tuple_0.len() == nodes.len()
            &&& forall|k: int|
                0 <= k < nodes.len() ==> type_means(#[trigger] nodes[k], t->Tuple_0[k])
        },
    decreases fuel, 6nat, nodes.len() - i,
{
    reveal(AnalyzerView::visit_tuple_type);
    reveal(AnalyzerView::visit_type);
    if i < nodes.len() {
        lemma_visit_type(s, nodes[i], fuel);
        let (t, r) = s.visit_type(nodes[i], fuel);
        if let Ok(taipe) = r {
            let more = types.push(taipe);
            assert forall|k: int| 0 <= k < i + 1 implies type_means(
                #[trigger] nodes[k],
                more[k],
            ) by {
                if k < i {
                    assert(more[k] == types[k]);
                }
            }
            lemma_visit_tuple_type(t, nodes, more, fuel, i + 1);
        }
    }
}

#[verifier::spinoff_prover]
proof fn lemma_visit_fun_type(
    s: AnalyzerView,
    params: Seq<ast::TypeView>,
    result: ast::TypeView,
    types: Seq<ParamView>,
    fuel: int,
    i: int,
)
    requires
        0 <= i <= params.len(),
        types.len() == i,
        forall|k: int| 0 <= k < i ==> type_means(#[trigger] params[k], types[k].taipe),
    ensures
        s.visit_fun_type(params, result, types, fuel, i).1 matches Ok(t) ==> {
            &&& t is Function
            &&& t->Function_params.len() == params.len()
            &&& type_means(result, *t->Function_ret)
            &&& forall|k: int|
                0 <= k < params.len() ==> type_means(
                    #[trigger] params[k],
                    t->Function_params[k].taipe,
                )
        },
    decreases fuel, 6nat, params.len() - i,
{
    reveal(AnalyzerView::visit_fun_type);
    reveal(AnalyzerView::visit_type);
    if i < params.len() {
        lemma_visit_type(s, params[i], fuel);
        let (t, r) = s.visit_type(params[i], fuel);
        if let Ok(taipe) = r {
            let more = types.push(ParamView { taipe });
            assert forall|k: int| 0 <= k < i + 1 implies type_means(
                #[trigger] params[k],
                more[k].taipe,
            ) by {
                if k < i {
                    assert(more[k] == types[k]);
                }
            }
            lemma_visit_fun_type(t, params, result, more, fuel, i + 1);
        }
    } else {
        lemma_visit_type(s, result, fuel);
    }
}

#[verifier::spinoff_prover]
proof fn lemma_visit_expr(s: AnalyzerView, node: ExprView, fuel: int)
    ensures
        s.visit_expr(node, fuel).1 matches Ok(ctx) ==> expr_means(node, ctx),
        s.visit_expr_lhs_of_assign(node, fuel).1 matches Ok(ctx) ==> expr_means(node, ctx),
    decreases fuel, 5nat, 0int,
{
    reveal(AnalyzerView::visit_expr);
    reveal(AnalyzerView::visit_expr_lhs_of_assign);
    reveal(AnalyzerView::visit_expr_impl);
    lemma_visit_expr_impl(s, node, fuel);
}

#[verifier::spinoff_prover]
proof fn lemma_visit_expr_impl(s: AnalyzerView, node: ExprView, fuel: int)
    ensures
        s.visit_expr_impl(node, fuel).1 matches Ok(ctx) ==> expr_means(node, ctx),
    decreases fuel, 4nat, 0int,
{
    reveal(AnalyzerView::visit_expr_impl);
    reveal(AnalyzerView::visit_block);
    reveal(AnalyzerView::visit_assigns);
    reveal(AnalyzerView::visit_binary);
    reveal(AnalyzerView::visit_cast);
    reveal(AnalyzerView::visit_unary);
    reveal(AnalyzerView::visit_call);
    reveal(AnalyzerView::visit_index);
    reveal(AnalyzerView::visit_literal);
    reveal(AnalyzerView::visit_expr);
    reveal(AnalyzerView::visit_tuple);
    reveal(expr_means);
    reveal(block_means);
    if fuel > 0 {
        match node {
            ExprView::Block { line_info, stmts } => {
                lemma_visit_block(s, line_info, stmts, fuel - 1);
            },
            ExprView::Assign { lhses, op, rhses } => {
                lemma_visit_assigns(s, node, lhses, rhses, seq![], fuel - 1, 0);
                if let Ok(ctx) = s.visit_expr_impl(node, fuel).1 {
                    assert forall|k: int| 0 <= k < rhses.len() implies exists|
                        l: ContextView,
                        r: ContextView,
                        v: ContextView,
                    | #[trigger]
                        four_parts(l, r, v, v) && expr_means(lhses[k], l) && expr_means(
                            #[trigger] rhses[k],
                            r,
                        ) && assigned_from(r, v) && is_assignment(
                            l,
                            v,
                            assignment_at(ctx, rhses.len(), k),
                        ) by {
                        assert(one_assignment(
                            lhses[k],
                            rhses[k],
                            assignment_at(ctx, rhses.len(), k),
                        ));
                    }
                    assert(expr_means(node, ctx));
                }
            },
            ExprView::Binary { left, op, right } => {
                lemma_visit_binary(s, *left, op, *right, fuel - 1);
            },
            ExprView::Cast { expr, taipe } => {
                lemma_visit_cast(s, node, *expr, *taipe, fuel - 1);
            },
            ExprView::Unary { op, expr } => {
                lemma_visit_unary(s, op, *expr, fuel - 1);
            },
            ExprView::Call { line_info: _, expr, args } => {
                lemma_visit_call(s, node, *expr, args, fuel - 1);
            },
            ExprView::Index { line_info: _, expr, items } => {
                lemma_visit_index(s, node, *expr, items, fuel - 1);
            },
            ExprView::Literal(token) => {
                lemma_visit_literal(s, token, fuel - 1);
            },
            ExprView::Paren { line_info: _, expr } => {
                lemma_visit_expr(s, *expr, fuel - 1);
            },
            ExprView::Tuple { line_info: _, exprs } => {
                lemma_visit_tuple(s, exprs, seq![], seq![], fuel - 1, 0);
                if let Ok(ctx) = s.visit_expr_impl(node, fuel).1 {
                    assert forall|k: int| 0 <= k < exprs.len() implies exists|
                        inner: ContextView,
                        item: ContextView,
                    | #[trigger]
                        parts(inner, item) && expr_means(#[trigger] exprs[k], inner) && settled(
                            inner,
                            item,
                        ) && item.value == ctx.value->Tuple_0[k] && item.taipe
                            == ctx.taipe->Tuple_0[k] by {
                        assert(tuple_item(exprs[k], ctx.value->Tuple_0[k], ctx.taipe->Tuple_0[k]));
                    }
                }
            },
            _ => {},
        }
    }
}

#[verifier::spinoff_prover]
proof fn lemma_visit_literal(s: AnalyzerView, token: TokenView, fuel: int)
    ensures
        s.visit_literal(token, fuel).1 matches Ok(ctx) ==> literal_means(token, ctx),
{
    reveal(AnalyzerView::visit_literal);
    reveal(AnalyzerView::float_literal);
    if token.kind == TokenKind::IntLit {
        lemma_int_literal(s, token);
    }
}

#[verifier::spinoff_prover]
proof fn lemma_visit_binary(
    s: AnalyzerView,
    left: ExprView,
    op: TokenView,
    right: ExprView,
    fuel: int,
)
    ensures
        s.visit_binary(left, op, right, fuel).1 matches Ok(ctx) ==> exists|
            l: ContextView,
            r: ContextView,
            a: ContextView,
            b: ContextView,
        | #[trigger]
            four_parts(l, r, a, b) && expr_means(left, l) && expr_means(right, r) && is_binary(
                op.kind,
                l,
                r,
                a,
                b,
                ctx,
            ),
    decreases fuel, 6nat, 0int,
{
    reveal(AnalyzerView::visit_binary);
    reveal(AnalyzerView::visit_expr);
    lemma_visit_expr(s, left, fuel);
    let (t, x) = s.visit_expr(left, fuel);
    lemma_visit_expr(t, right, fuel);
    let (u, y) = t.visit_expr(right, fuel);
    if let (Ok(l), Ok(r), Ok(left_line), Ok(right_line)) = (x, y, left.line(), right.line()) {
        let line = crate::common::span_from(left_line, right_line);
        lemma_binary_result(u, op, l, left_line, r, right_line, line);
        if let Ok(ctx) = u.binary_result(op, l, left_line, r, right_line, line) {
            let (a, b) = choose|a: ContextView, b: ContextView| #[trigger]
                parts(a, b) && is_binary(op.kind, l, r, a, b, ctx);
            assert(four_parts(l, r, a, b));
        }
    }
}

#[verifier::spinoff_prover]
proof fn lemma_visit_unary(s: AnalyzerView, op: TokenView, expr: ExprView, fuel: int)
    ensures
        s.visit_unary(op, expr, fuel).1 matches Ok(ctx) ==> exists|inner: ContextView| #[trigger]
            part(inner) && expr_means(expr, inner) && is_unary(op.kind, inner, ctx),
    decreases fuel, 6nat, 0int,
{
    reveal(AnalyzerView::visit_unary);
    reveal(AnalyzerView::visit_expr);
    reveal(AnalyzerView::usize2usize);
    lemma_visit_expr(s, expr, fuel);
    let (t, x) = s.visit_expr(expr, fuel);
    if let (Ok(inner), Ok(line)) = (x, expr.line()) {
        assert(part(inner));
        lemma_unary_results(t, inner, line);
    }
}

#[verifier::spinoff_prover]
proof fn lemma_visit_cast(
    s: AnalyzerView,
    node: ExprView,
    expr: ExprView,
    target: ast::TypeView,
    fuel: int,
)
    ensures
        s.visit_cast(node, expr, target, fuel).1 matches Ok(ctx) ==> exists|inner: ContextView|
         #[trigger]
            part(inner) && expr_means(expr, inner) && type_means(target, ctx.taipe) && (settled(
                ContextView::make(ctx.is_lvalue, ctx.taipe, inner.value),
                ctx,
            ) || ctx.value == ValueView::Cast(Box::new(inner))),
    decreases fuel, 6nat, 0int,
{
    reveal(AnalyzerView::visit_cast);
    reveal(AnalyzerView::visit_expr);
    reveal(AnalyzerView::visit_type);
    reveal(AnalyzerView::imm_of);
    lemma_visit_expr(s, expr, fuel);
    let (t, x) = s.visit_expr(expr, fuel);
    if let Ok(inner) = x {
        assert(part(inner));
        lemma_visit_type(t, target, fuel);
        let (u, y) = t.visit_type(target, fuel);
        if let (Ok(taipe), Ok(imm), Ok(line)) = (y, u.imm_of(inner.value), expr.line()) {
            lemma_literal_typed(u, taipe, imm, line, None);
        }
    }
}

#[verifier::spinoff_prover]
proof fn lemma_visit_index(
    s: AnalyzerView,
    node: ExprView,
    expr: ExprView,
    items: Seq<ExprView>,
    fuel: int,
)
    ensures
        s.visit_index(node, expr, items, fuel).1 matches Ok(ctx) ==> {
            &&& items.len() == 1
            &&& exists|base: ContextView, index: ContextView| #[trigger]
                parts(base, index) && expr_means(expr, base) && expr_means(items[0], index) && (
                ctx.value matches ValueView::Index { line_info: _, lhs, index: place } && *lhs
                    == base && *place == index) && index.taipe.is_integer() && is_item(
                    base.taipe,
                    ctx.taipe,
                )
        },
    decreases fuel, 6nat, 0int,
{
    reveal(AnalyzerView::visit_index);
    reveal(AnalyzerView::visit_expr);
    if items.len() == 1 {
        lemma_visit_expr(s, expr, fuel);
        let (t, x) = s.visit_expr(expr, fuel);
        if let Ok(base) = x {
            lemma_visit_expr(t, items[0], fuel);
            let (u, y) = t.visit_expr(items[0], fuel);
            if let Ok(index) = y {
                assert(parts(base, index));
            }
        }
    }
}

#[verifier::spinoff_prover]
proof fn lemma_visit_call(
    s: AnalyzerView,
    node: ExprView,
    expr: ExprView,
    args: Seq<ast::ArgView>,
    fuel: int,
)
    ensures
        s.visit_call(node, expr, args, fuel).1 matches Ok(ctx) ==> exists|fun: ContextView|
         #[trigger]
            part(fun) && expr_means(expr, fun) && ctx.value is DirectCall && (match fun.value {
                ValueView::GetGlobal { line_info: _, scope_id } => scope_id
                    == ctx.value->DirectCall_fun_scope_id,
                ValueView::GetLocal { line_info: _, scope_id } => scope_id
                    == ctx.value->DirectCall_fun_scope_id,
                _ => false,
            }),
    decreases fuel, 7nat, 0int,
{
    reveal(AnalyzerView::visit_call);
    reveal(AnalyzerView::visit_expr);
    reveal(AnalyzerView::visit_args);
    reveal(AnalyzerView::resolve_call);
    reveal(AnalyzerView::direct_call);
    lemma_visit_expr(s, expr, fuel);
    let (t, x) = s.visit_expr(expr, fuel);
    if let Ok(fun) = x {
        assert(part(fun));
    }
}

/// Whether a value and its type are those of an expression that stands in a tuple.
pub open spec fn tuple_item(e: ExprView, value: ValueView, taipe: TypeView) -> bool {
    exists|inner: ContextView, item: ContextView| #[trigger]
        parts(inner, item) && expr_means(e, inner) && settled(inner, item) && item.value == value
            && item.taipe == taipe
}

#[verifier::spinoff_prover]
proof fn lemma_visit_tuple(
    s: AnalyzerView,
    exprs: Seq<ExprView>,
    types: Seq<TypeView>,
    values: Seq<ValueView>,
    fuel: int,
    i: int,
)
    requires
        0 <= i <= exprs.len(),
        types.len() == i,
        values.len() == i,
        forall|k: int| 0 <= k < i ==> tuple_item(#[trigger] exprs[k], values[k], types[k]),
    ensures
        s.visit_tuple(exprs, types, values, fuel, i).1 matches Ok(ctx) ==> {
            &&& ctx.value is Tuple
            &&& ctx.taipe is Tuple
            &&& ctx.value->Tuple_0.len() == exprs.len()
            &&& ctx.taipe->Tuple_0.len() == exprs.len()
            &&& forall|k: int|
                0 <= k < exprs.len() ==> tuple_item(
                    #[trigger] exprs[k],
                    ctx.value->Tuple_0[k],
                    ctx.taipe->Tuple_0[k],
                )
        },
    decreases fuel, 6nat, exprs.len() - i,
{
    reveal(AnalyzerView::visit_tuple);
    reveal(AnalyzerView::visit_expr);
    if i < exprs.len() {
        lemma_visit_expr(s, exprs[i], fuel);
        let (t, x) = s.visit_expr(exprs[i], fuel);
        if let Ok(inner) = x {
            lemma_settled_int(t, inner, exprs[i]);
            if let Ok(item) = t.settle_int(inner, exprs[i]) {
                let more_types = types.push(item.taipe);
                let more_values = values.push(item.value);
                assert(parts(inner, item));
                assert forall|k: int| 0 <= k < i + 1 implies tuple_item(
                    #[trigger] exprs[k],
                    more_values[k],
                    more_types[k],
                ) by {
                    if k < i {
                        assert(more_types[k] == types[k] && more_values[k] == values[k]);
                    }
                }
                lemma_visit_tuple(t, exprs, more_types, more_values, fuel, i + 1);
            }
        }
    }
}

/// Whether a value is the assignment of one expression to another one.
pub open spec fn one_assignment(lhs: ExprView, rhs: ExprView, ctx: ContextView) -> bool {
    exists|l: ContextView, r: ContextView, v: ContextView| #[trigger]
        four_parts(l, r, v, v) && expr_means(lhs, l) && expr_means(rhs, r) && assigned_from(r, v)
            && is_assignment(l, v, ctx)
}

#[verifier::spinoff_prover]
proof fn lemma_visit_assigns(
    s: AnalyzerView,
    node: ExprView,
    lhses: Seq<ExprView>,
    rhses: Seq<ExprView>,
    assigns: Seq<ContextView>,
    fuel: int,
    i: int,
)
    requires
        0 <= i <= rhses.len(),
        assigns.len() == i,
        i <= lhses.len(),
        forall|k: int| 0 <= k < i ==> one_assignment(lhses[k], rhses[k], #[trigger] assigns[k]),
    ensures
        s.visit_assigns(node, lhses, rhses, assigns, fuel, i).1 matches Ok(ctx) ==> {
            &&& lhses.len() >= rhses.len()
            &&& rhses.len() == 1 ==> one_assignment(lhses[0], rhses[0], ctx)
            &&& rhses.len() != 1 ==> {
                &&& ctx.value is Block
                &&& ctx.value->Block_0.len() == rhses.len()
                &&& forall|k: int|
                    0 <= k < rhses.len() ==> one_assignment(
                        lhses[k],
                        rhses[k],
                        #[trigger] ctx.value->Block_0[k],
                    )
            }
        },
    decreases fuel, 6nat, rhses.len() - i,
{
    reveal(AnalyzerView::visit_assigns);
    reveal(AnalyzerView::visit_expr);
    reveal(AnalyzerView::visit_expr_lhs_of_assign);
    reveal(AnalyzerView::set_value);
    if i < rhses.len() {
        if let Ok(rhs_line) = rhses[i].line() {
            lemma_visit_expr(s, rhses[i], fuel);
            let (t, x) = s.visit_expr(rhses[i], fuel);
            if let Ok(r) = x {
                if i < lhses.len() {
                    if let Ok(lhs_line) = lhses[i].line() {
                        lemma_visit_expr(t, lhses[i], fuel);
                        let (u, y) = t.visit_expr_lhs_of_assign(lhses[i], fuel);
                        if let Ok(l) = y {
                            lemma_assigned(u, Some((l.taipe, lhs_line)), None, r, rhs_line);
                            let assigned = u.resolve_assign(
                                Some((l.taipe, lhs_line)),
                                None,
                                Some((r, rhs_line)),
                            );
                            if let (Ok(v), Ok(line)) = (assigned, node.line()) {
                                if let Ok(set) = u.set_value(l.value, line, v) {
                                    let one = ContextView::make(false, TypeView::Void, set);
                                    let more = assigns.push(one);
                                    assert(is_assignment(l, v, one));
                                    assert(four_parts(l, r, v, v));
                                    assert forall|k: int| 0 <= k < i + 1 implies one_assignment(
                                        lhses[k],
                                        rhses[k],
                                        #[trigger] more[k],
                                    ) by {
                                        if k < i {
                                            assert(more[k] == assigns[k]);
                                        }
                                    }
                                    lemma_visit_assigns(u, node, lhses, rhses, more, fuel, i + 1);
                                }
                            }
                        }
                    }
                }
            }
        }
    } else {
        if rhses.len() == 1 {
            assert(one_assignment(lhses[0], rhses[0], assigns[0]));
        }
    }
}

#[verifier::spinoff_prover]
proof fn lemma_visit_block(s: AnalyzerView, line: Span, stmts: Seq<StmtView>, fuel: int)
    ensures
        s.visit_block(line, stmts, fuel).1 matches Ok(ctx) ==> block_means(stmts, ctx),
    decreases fuel, 5nat, 0int,
{
    reveal(AnalyzerView::visit_block);
    reveal(AnalyzerView::visit_stmts);
    reveal(AnalyzerView::visit_unreachable);
    if fuel > 0 {
        if let (s1, Ok(scope_id)) = s.create_block_scope(line) {
            if let (s2, Ok(_)) = s1.push_current_scope(scope_id) {
                if let (s3, Ok(_)) = s2.pre_declare_stmts(stmts, 0) {
                    lemma_visit_stmts(s3, stmts, false, TypeView::Void, seq![], fuel - 1, 0);
                    if let (s4, Ok(run)) = s3.visit_stmts(
                        stmts,
                        false,
                        TypeView::Void,
                        seq![],
                        fuel - 1,
                        0,
                    ) {
                        if let Ok(ctx) = s.visit_block(line, stmts, fuel).1 {
                            reveal(block_means);
                            reveal(stmt_means);
                            let n = run.items.len() as int;
                            assert(reached(n));
                            assert forall|k: int| 0 <= k < n implies exists|c: ContextView|
                             #[trigger]
                                part(c) && stmt_means(#[trigger] stmts[k], c)
                                    && ctx.value->Block_0[k] == kept(c) && goes_on(
                                    c,
                                    k,
                                    n,
                                    stmts.len() as int,
                                    ctx,
                                ) by {
                                if k < n - 1 {
                                    assert(plain_item(stmts[k], run.items[k]));
                                } else {
                                    assert(last_item(stmts[k], run.items[k], run.taipe));
                                }
                                assert(ctx.value->Block_0[k] == run.items[k]);
                            }
                        }
                    }
                }
            }
        }
    }
}

/// Whether a value is what a statement of a block says that gives nothing.
pub open spec fn plain_item(stmt: StmtView, item: ContextView) -> bool {
    exists|c: ContextView| #[trigger]
        part(c) && stmt_means(stmt, c) && item == kept(c) && c.taipe.is_void()
}

/// Whether a value is what a statement of a block says that gives something of a type.
pub open spec fn last_item(stmt: StmtView, item: ContextView, taipe: TypeView) -> bool {
    exists|c: ContextView| #[trigger]
        part(c) && stmt_means(stmt, c) && item == kept(c) && c.taipe == taipe
}

#[verifier::spinoff_prover]
proof fn lemma_visit_stmts(
    s: AnalyzerView,
    stmts: Seq<StmtView>,
    is_lvalue: bool,
    taipe: TypeView,
    items: Seq<ContextView>,
    fuel: int,
    i: int,
)
    requires
        0 <= i <= stmts.len(),
        items.len() == i,
        i == 0 ==> taipe == TypeView::Void,
        i > 0 ==> taipe.is_void() && last_item(stmts[i - 1], items[i - 1], taipe),
        forall|k: int| 0 <= k < i ==> plain_item(stmts[k], #[trigger] items[k]),
    ensures
        s.visit_stmts(stmts, is_lvalue, taipe, items, fuel, i).1 matches Ok(run) ==> {
            let n = run.items.len() as int;
            &&& n <= stmts.len()
            &&& run.last == n
            &&& n == 0 ==> stmts.len() == 0 && run.taipe == TypeView::Void
            &&& n > 0 ==> last_item(stmts[n - 1], run.items[n - 1], run.taipe)
            &&& n == stmts.len() || !run.taipe.is_void() || run.taipe.is_noreturn()
            &&& forall|k: int| 0 <= k < n - 1 ==> plain_item(stmts[k], #[trigger] run.items[k])
        },
    decreases fuel, 6nat, stmts.len() - i,
{
    reveal(AnalyzerView::visit_stmts);
    reveal(AnalyzerView::visit_stmt);
    reveal(AnalyzerView::without_eval);
    if i < stmts.len() {
        lemma_visit_stmt(s, stmts[i], fuel);
        let (t, r) = s.visit_stmt(stmts[i], fuel);
        if let Ok(ctx) = r {
            let item = t.without_eval(ctx);
            assert(item == kept(ctx));
            assert(part(ctx));
            let more = items.push(item);
            assert(last_item(stmts[i], more[i], ctx.taipe));
            assert forall|k: int| 0 <= k < i implies plain_item(stmts[k], #[trigger] more[k]) by {
                assert(more[k] == items[k]);
            }
            if ctx.taipe.is_void() && !ctx.taipe.is_noreturn() {
                assert(plain_item(stmts[i], more[i]));
                lemma_visit_stmts(t, stmts, ctx.is_lvalue, ctx.taipe, more, fuel, i + 1);
            }
        }
    }
}

#[verifier::spinoff_prover]
proof fn lemma_visit_stmt(s: AnalyzerView, stmt: StmtView, fuel: int)
    ensures
        s.visit_stmt(stmt, fuel).1 matches Ok(ctx) ==> stmt_means(stmt, ctx),
    decreases fuel, 5nat, 0int,
{
    reveal(AnalyzerView::visit_stmt);
    reveal(AnalyzerView::visit_if_stmt);
    reveal(AnalyzerView::visit_if_else_stmt);
    reveal(AnalyzerView::visit_while_stmt);
    reveal(AnalyzerView::visit_block);
    reveal(AnalyzerView::visit_return);
    reveal(AnalyzerView::visit_return_void);
    reveal(AnalyzerView::visit_break);
    reveal(AnalyzerView::visit_continue);
    reveal(AnalyzerView::visit_jump);
    reveal(AnalyzerView::visit_expr);
    reveal(AnalyzerView::visit_decl);
    reveal(stmt_means);
    reveal(block_means);
    reveal(expr_means);
    if fuel > 0 {
        match stmt {
            StmtView::If { line_info: _, expr, then_body, else_body } => {
                if let Ok(line) = stmt.line() {
                    match else_body {
                        Some(other) => {
                            lemma_visit_if_else(s, expr, *then_body, *other, line, fuel - 1);
                        },
                        None => {
                            lemma_visit_if(s, expr, *then_body, line, fuel - 1);
                        },
                    }
                }
            },
            StmtView::While { line_info: _, label, expr, then_body } => {
                if let Ok(line) = stmt.line() {
                    lemma_visit_while(s, label, expr, *then_body, line, fuel - 1);
                }
            },
            StmtView::Block { line_info, stmts } => {
                lemma_visit_block(s, line_info, stmts, fuel - 1);
            },
            StmtView::Yield { token: _, expr } => {
                lemma_visit_expr(s, expr, fuel - 1);
                let (t, x) = s.visit_expr(expr, fuel - 1);
                if let Ok(inner) = x {
                    assert(part(inner));
                    lemma_settled_int(t, inner, expr);
                }
            },
            StmtView::Return { token, expr } => {
                if let Some(e) = expr {
                    lemma_visit_return(s, token, e, fuel - 1);
                }
            },
            StmtView::Expr(e) => {
                lemma_visit_expr(s, *e, fuel - 1);
            },
            _ => {},
        }
    }
}

#[verifier::spinoff_prover]
proof fn lemma_visit_return(s: AnalyzerView, token: TokenView, e: ExprView, fuel: int)
    ensures
        s.visit_return(token, e, fuel).1 matches Ok(ctx) ==> {
            &&& ctx.value is Ret
            &&& ctx.taipe is Noreturn
            &&& exists|inner: ContextView| #[trigger]
                part(inner) && expr_means(e, inner) && assigned_from(inner, *ctx.value->Ret_0)
        },
    decreases fuel, 6nat, 0int,
{
    reveal(AnalyzerView::visit_return);
    reveal(AnalyzerView::visit_expr);
    if let Ok((result, ret_line)) = s.return_target(token) {
        lemma_visit_expr(s, e, fuel);
        let (t, x) = s.visit_expr(e, fuel);
        if let Ok(inner) = x {
            assert(part(inner));
            if let ((u, Ok(_)), Ok(line)) = (t.flow_return(), e.line()) {
                lemma_assigned(u, Some((result, ret_line)), None, inner, line);
            }
        }
    }
}

#[verifier::spinoff_prover]
proof fn lemma_visit_condition(s: AnalyzerView, expr: ExprView, fuel: int)
    ensures
        s.visit_condition(expr, fuel).1 matches Ok(cond) ==> expr_means(expr, cond)
            && cond.taipe.is_bool(),
    decreases fuel, 6nat, 0int,
{
    reveal(AnalyzerView::visit_condition);
    reveal(AnalyzerView::visit_expr);
    lemma_visit_expr(s, expr, fuel);
}

#[verifier::spinoff_prover]
proof fn lemma_visit_if(
    s: AnalyzerView,
    expr: ExprView,
    then_body: StmtView,
    line: Span,
    fuel: int,
)
    ensures
        s.visit_if_stmt(expr, then_body, line, fuel).1 matches Ok(ctx) ==> (ctx.value matches
            ValueView::IfElse { line_info: _, cond, then_ctx, else_ctx } && {
            &&& expr_means(expr, *cond)
            &&& cond.taipe.is_bool()
            &&& stmt_means(then_body, *then_ctx)
            &&& *else_ctx == ContextView::from_void()
            &&& ctx.taipe is Void
        }),
    decreases fuel, 7nat, 0int,
{
    reveal(AnalyzerView::visit_if_stmt);
    reveal(AnalyzerView::visit_condition);
    reveal(AnalyzerView::visit_stmt);
    lemma_visit_condition(s, expr, fuel);
    let (t, x) = s.visit_condition(expr, fuel);
    lemma_visit_stmt(t, then_body, fuel);
}

#[verifier::spinoff_prover]
proof fn lemma_visit_if_else(
    s: AnalyzerView,
    expr: ExprView,
    then_body: StmtView,
    else_body: StmtView,
    line: Span,
    fuel: int,
)
    ensures
        s.visit_if_else_stmt(expr, then_body, else_body, line, fuel).1 matches Ok(ctx) ==> (
        ctx.value matches ValueView::IfElse { line_info: _, cond, then_ctx, else_ctx } && {
            &&& expr_means(expr, *cond)
            &&& cond.taipe.is_bool()
            &&& stmt_means(then_body, *then_ctx)
            &&& stmt_means(else_body, *else_ctx)
            &&& is_choice(then_ctx.taipe, else_ctx.taipe, ctx.taipe)
        }),
    decreases fuel, 7nat, 0int,
{
    reveal(AnalyzerView::visit_if_else_stmt);
    reveal(AnalyzerView::visit_condition);
    reveal(AnalyzerView::visit_stmt);
    reveal(AnalyzerView::if_result);
    lemma_visit_condition(s, expr, fuel);
    let (t, x) = s.visit_condition(expr, fuel);
    lemma_visit_stmt(t, then_body, fuel);
    let (u, y) = t.visit_stmt(then_body, fuel);
    if let Ok(cf_cond) = t.flow_last() {
        if let (v, Ok(_)) = u.flow_set_last(cf_cond) {
            lemma_visit_stmt(v, else_body, fuel);
        }
    }
}

#[verifier::spinoff_prover]
proof fn lemma_visit_while(
    s: AnalyzerView,
    label: Option<TokenView>,
    expr: ExprView,
    then_body: StmtView,
    line: Span,
    fuel: int,
)
    ensures
        s.visit_while_stmt(label, expr, then_body, line, fuel).1 matches Ok(ctx) ==> (
        ctx.value matches ValueView::While { line_info: _, cond, body_ctx } && {
            &&& ctx.taipe is Void
            &&& expr_means(expr, *cond)
            &&& cond.taipe.is_bool()
            &&& stmt_means(then_body, *body_ctx)
        }),
    decreases fuel, 7nat, 0int,
{
    reveal(AnalyzerView::visit_while_stmt);
    reveal(AnalyzerView::visit_condition);
    reveal(AnalyzerView::visit_stmt);
    if let (s1, Ok(cf_break)) = s.flow_vertex(crate::cfg::ControlNodeView::Junction) {
        if let (s2, Ok(cf_continue)) = s1.flow_vertex(crate::cfg::ControlNodeView::Junction) {
            if let Ok(last) = s2.flow_last() {
                if let (s3, Ok(_)) = s2.flow_edge(last, cf_continue) {
                    if let (s4, Ok(_)) = s3.flow_set_last(cf_continue) {
                        lemma_visit_condition(s4, expr, fuel);
                        if let (s5, Ok(cond)) = s4.visit_condition(expr, fuel) {
                            if let (s6, Ok(name)) = s5.loop_name(label) {
                                let info = crate::scope::LoopInfoView { cf_break, cf_continue };
                                if let (s7, Ok(_)) = s6.push_loop(name, info) {
                                    lemma_visit_stmt(s7, then_body, fuel);
                                }
                            }
                        }
                    }
                }
            }
        }
    }
}

/// What the analysis makes of an expression, a type and a statement is what they say: the same
/// operations on the same operands, in the same order. A condition decides between the bodies that
/// are written for it, what is returned or assigned is the value of the expression that is written
/// there, and literals keep their numbers.
pub proof fn law_analysis_keeps_meaning(
    s: AnalyzerView,
    expr: ExprView,
    taipe: ast::TypeView,
    stmt: StmtView,
    fuel: int,
)
    ensures
        s.visit_expr(expr, fuel).1 matches Ok(ctx) ==> expr_means(expr, ctx),
        s.visit_type(taipe, fuel).1 matches Ok(t) ==> type_means(taipe, t),
        s.visit_stmt(stmt, fuel).1 matches Ok(ctx) ==> stmt_means(stmt, ctx),
{
    lemma_visit_expr(s, expr, fuel);
    lemma_visit_type(s, taipe, fuel);
    lemma_visit_stmt(s, stmt, fuel);
}

} // verus!
