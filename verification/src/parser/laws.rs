use vstd::prelude::*;

use crate::ast::{
    ArgView, DeclView, ExprView, FieldView, ObjectView, ParamView, StmtView, TypeView,
};
use crate::common::{span_from, Span};
use crate::parser::model::{ParseState, Parsed};
use crate::token::{TokenKind, TokenView};

verus! {

/// Whether a token of a kind stands at a place.
pub open spec fn kind_at(t: Seq<TokenView>, i: int, kind: TokenKind) -> bool {
    0 <= i < t.len() && t[i].kind == kind
}

/// Whether a token stands at a place.
pub open spec fn token_at(t: Seq<TokenView>, i: int, token: TokenView) -> bool {
    0 <= i < t.len() && t[i] == token
}

/// Any place between two parts.
pub open spec fn place(k: int) -> bool {
    true
}

/// Whether a region is the one of the tokens from a place up to another one.
pub open spec fn is_region(t: Seq<TokenView>, i: int, j: int, region: Span) -> bool {
    0 <= i < j <= t.len() && region == span_from(t[i].line_info, t[j - 1].line_info)
}

/// How strongly an operator between two operands binds them. The operators of the language, from
/// the weakest to the strongest: `and` and `or`; `not`; comparisons; `&`, `^` and `|`; shifts;
/// `+` and `-`; `*`, `/` and `%`; `as`; then what stands before an operand, and what stands after
/// it.
pub open spec fn binary_strength(kind: TokenKind) -> int {
    match kind {
        TokenKind::And | TokenKind::Or => 1,
        TokenKind::LAngle
        | TokenKind::LessEq
        | TokenKind::EqEq
        | TokenKind::NotEq
        | TokenKind::GreaterEq
        | TokenKind::RAngle => 3,
        TokenKind::Ampersand | TokenKind::Caret | TokenKind::Pipe => 4,
        TokenKind::ShiftLeft | TokenKind::ShiftRight => 5,
        TokenKind::Plus
        | TokenKind::PlusPercent
        | TokenKind::PlusColon
        | TokenKind::Minus
        | TokenKind::MinusPercent
        | TokenKind::MinusColon => 6,
        TokenKind::Star | TokenKind::Slash | TokenKind::Percent => 7,
        _ => 0,
    }
}

/// How strongly an operator before an operand binds it.
pub open spec fn unary_strength(kind: TokenKind) -> int {
    match kind {
        TokenKind::Not => 2,
        TokenKind::Sizeof | TokenKind::Typeof | TokenKind::Alignof => 9,
        TokenKind::Minus | TokenKind::Tilde | TokenKind::Star | TokenKind::Ampersand => 10,
        _ => 0,
    }
}

/// How strongly the parts of an expression hold together.
pub open spec fn strength(expr: ExprView) -> int {
    match expr {
        ExprView::Binary { op, .. } => binary_strength(op.kind),
        ExprView::Unary { op, .. } => unary_strength(op.kind),
        ExprView::Cast { .. } => 8,
        ExprView::Member { .. } | ExprView::Call { .. } | ExprView::Index { .. } => 11,
        ExprView::Literal(_)
        | ExprView::Paren { .. }
        | ExprView::Tuple { .. }
        | ExprView::ArrayLit { .. } => 12,
        _ => 0,
    }
}

/// Whether a token of a kind is an expression by itself.
pub open spec fn is_atom(kind: TokenKind) -> bool {
    match kind {
        TokenKind::True
        | TokenKind::False
        | TokenKind::StringLit
        | TokenKind::IntLit
        | TokenKind::FloatLit
        | TokenKind::Ident => true,
        _ => false,
    }
}

/// Whether the tokens from a place up to another one are an expression, written out in order.
#[verifier::opaque]
pub open spec fn expr_at(e: ExprView, t: Seq<TokenView>, i: int, j: int) -> bool
    decreases e, 5nat,
{
    match e {
        ExprView::Literal(token) => {
            &&& j == i + 1
            &&& token_at(t, i, token)
            &&& is_atom(token.kind)
        },
        ExprView::Unary { op, expr } => {
            &&& token_at(t, i, op)
            &&& unary_strength(op.kind) > 0
            &&& strength(*expr) >= unary_strength(op.kind)
            &&& op.kind == TokenKind::Not || strength(*expr) >= 10
            &&& expr_at(*expr, t, i + 1, j)
        },
        ExprView::Binary { left, op, right } => {
            &&& binary_strength(op.kind) > 0
            &&& strength(*left) >= binary_strength(op.kind)
            &&& strength(*right) > binary_strength(op.kind)
            &&& exists|k: int| #[trigger]
                place(k) && expr_at(*left, t, i, k) && token_at(t, k, op)
                    && expr_at(*right, t, k + 1, j)
        },
        ExprView::Cast { expr, taipe } => {
            &&& strength(*expr) >= 8
            &&& exists|k: int| #[trigger]
                place(k) && expr_at(*expr, t, i, k) && kind_at(t, k, TokenKind::As) && taipe_at(
                    *taipe,
                    t,
                    k + 1,
                    j,
                )
        },
        ExprView::Member { expr, name } => {
            &&& strength(*expr) >= 11
            &&& expr_at(*expr, t, i, j - 2)
            &&& kind_at(t, j - 2, TokenKind::Dot)
            &&& token_at(t, j - 1, name)
            &&& name.kind == TokenKind::Ident || name.kind == TokenKind::IntLit
        },
        ExprView::Call { line_info, expr, args } => {
            &&& strength(*expr) >= 11
            &&& kind_at(t, j - 1, TokenKind::RParen)
            &&& line_info == span_from(expr.span(), t[j - 1].line_info)
            &&& exists|k: int| #[trigger]
                place(k) && expr_at(*expr, t, i, k) && kind_at(t, k, TokenKind::LParen) && args_at(
                    args,
                    t,
                    k + 1,
                    j - 1,
                )
        },
        ExprView::Index { line_info, expr, items } => {
            &&& strength(*expr) >= 11
            &&& kind_at(t, j - 1, TokenKind::RBrack)
            &&& line_info == span_from(expr.span(), t[j - 1].line_info)
            &&& exists|k: int| #[trigger]
                place(k) && expr_at(*expr, t, i, k) && kind_at(t, k, TokenKind::LBrack) && exprs_at(
                    items,
                    t,
                    k + 1,
                    j - 1,
                )
        },
        ExprView::Paren { line_info, expr } => {
            &&& is_region(t, i, j, line_info)
            &&& kind_at(t, i, TokenKind::LParen)
            &&& expr_at(*expr, t, i + 1, j - 1)
            &&& kind_at(t, j - 1, TokenKind::RParen)
        },
        ExprView::Tuple { line_info, exprs } => {
            &&& is_region(t, i, j, line_info)
            &&& kind_at(t, i, TokenKind::LParen)
            &&& exprs_at(exprs, t, i + 1, j - 1)
            &&& kind_at(t, j - 1, TokenKind::RParen)
        },
        ExprView::ArrayLit { line_info, items } => {
            &&& is_region(t, i, j, line_info)
            &&& kind_at(t, i, TokenKind::LBrack)
            &&& exprs_at(items, t, i + 1, j - 1)
            &&& kind_at(t, j - 1, TokenKind::RBrack)
        },
        ExprView::Assign { lhses, op, rhses } => {
            &&& lhses.len() > 0
            &&& rhses.len() > 0
            &&& op.kind == TokenKind::Equal
            &&& exists|k: int| #[trigger]
                place(k) && exprs_at(lhses, t, i, k) && token_at(t, k, op)
                    && exprs_at(rhses, t, k + 1, j)
        },
        ExprView::Block { .. } | ExprView::Compeval { .. } => false,
    }
}

/// Whether the tokens from a place up to another one are an argument of a call.
#[verifier::opaque]
pub open spec fn arg_at(a: ArgView, t: Seq<TokenView>, i: int, j: int) -> bool
    decreases a, 5nat,
{
    match a.name {
        None => expr_at(a.expr, t, i, j),
        Some(name) => {
            &&& token_at(t, i, name)
            &&& name.kind == TokenKind::Ident
            &&& kind_at(t, i + 1, TokenKind::Colon)
            &&& expr_at(a.expr, t, i + 2, j)
        },
    }
}

/// Whether the tokens from a place up to another one are names with points between them.
pub open spec fn path_at(items: Seq<TokenView>, t: Seq<TokenView>, i: int, j: int) -> bool {
    &&& items.len() > 0
    &&& j == i + 2 * items.len() - 1
    &&& forall|m: int|
        0 <= m < items.len() ==> token_at(t, i + 2 * m, #[trigger] items[m]) && (m > 0 ==> kind_at(
            t,
            i + 2 * m - 1,
            TokenKind::Dot,
        ))
}

/// Whether the tokens from a place up to another one are a type.
#[verifier::opaque]
pub open spec fn taipe_at(ty: TypeView, t: Seq<TokenView>, i: int, j: int) -> bool
    decreases ty, 5nat,
{
    match ty {
        TypeView::Path { items } => {
            &&& path_at(items, t, i, j)
            &&& forall|m: int|
                0 <= m < items.len() ==> (#[trigger] items[m]).kind == TokenKind::Ident
        },
        TypeView::Function { line_info, params, ret } => {
            &&& kind_at(t, i, TokenKind::Fun)
            &&& kind_at(t, i + 1, TokenKind::LParen)
            &&& line_info == span_from(t[i].line_info, ret.span())
            &&& exists|k: int| #[trigger]
                place(k) && taipes_at(params, t, i + 2, k) && kind_at(t, k, TokenKind::RParen)
                    && kind_at(
                    t,
                    k + 1,
                    TokenKind::Arrow,
                ) && taipe_at(*ret, t, k + 2, j)
        },
        TypeView::Const { token, taipe } => {
            &&& token_at(t, i, token)
            &&& token.kind == TokenKind::Const
            &&& taipe_at(*taipe, t, i + 1, j)
        },
        TypeView::Pointer { token, taipe } => {
            &&& token_at(t, i, token)
            &&& token.kind == TokenKind::Star
            &&& taipe_at(*taipe, t, i + 1, j)
        },
        TypeView::Array { line_info, taipe, expr } => {
            &&& is_region(t, i, j, line_info)
            &&& kind_at(t, i, TokenKind::LBrack)
            &&& match expr {
                None => {
                    &&& kind_at(t, i + 1, TokenKind::Underscore)
                    &&& kind_at(t, i + 2, TokenKind::RBrack)
                    &&& taipe_at(*taipe, t, i + 3, j)
                },
                Some(e) => exists|k: int| #[trigger]
                    place(k) && expr_at(e, t, i + 1, k) && kind_at(t, k, TokenKind::RBrack)
                        && taipe_at(
                        *taipe,
                        t,
                        k + 1,
                        j,
                    ),
            }
        },
        TypeView::Fat { line_info, taipe } => {
            &&& is_region(t, i, j, line_info)
            &&& kind_at(t, i, TokenKind::LBrack)
            &&& kind_at(t, i + 1, TokenKind::RBrack)
            &&& taipe_at(*taipe, t, i + 2, j)
        },
        TypeView::Paren { line_info, taipe } => {
            &&& is_region(t, i, j, line_info)
            &&& kind_at(t, i, TokenKind::LParen)
            &&& taipe_at(*taipe, t, i + 1, j - 1)
            &&& kind_at(t, j - 1, TokenKind::RParen)
        },
        TypeView::Tuple { line_info, types } => {
            &&& is_region(t, i, j, line_info)
            &&& kind_at(t, i, TokenKind::LParen)
            &&& taipes_at(types, t, i + 1, j - 1)
            &&& kind_at(t, j - 1, TokenKind::RParen)
        },
        TypeView::Literal(token) => {
            &&& j == i + 1
            &&& token_at(t, i, token)
            &&& token.kind == TokenKind::Void || token.kind == TokenKind::Noreturn || token.kind
                == TokenKind::Typedef
        },
    }
}

/// Whether a token gives a value to what stands before it.
pub open spec fn gives_value(token: TokenView) -> bool {
    token.kind == TokenKind::Equal || token.kind == TokenKind::Colon
}

/// Whether the tokens from a place up to another one are a field of a struct or a union, or a
/// nested one.
#[verifier::opaque]
pub open spec fn field_at(f: FieldView, t: Seq<TokenView>, i: int, j: int) -> bool
    decreases f, 5nat,
{
    match f {
        FieldView::Compound { line_info, token, fields } => {
            &&& is_region(t, i, j, line_info)
            &&& token_at(t, i, token)
            &&& token.kind == TokenKind::Struct || token.kind == TokenKind::Union
            &&& kind_at(t, i + 1, TokenKind::LBrace)
            &&& fields_at(fields, t, i + 2, j - 1)
            &&& kind_at(t, j - 1, TokenKind::RBrace)
        },
        FieldView::Decl { name, taipe, eq_token, expr } => {
            &&& token_at(t, i, name)
            &&& name.kind == TokenKind::Ident || name.kind == TokenKind::Underscore
            &&& kind_at(t, i + 1, TokenKind::Colon)
            &&& match (eq_token, expr) {
                (None, None) => taipe_at(taipe, t, i + 2, j),
                (Some(eq), Some(e)) => {
                    &&& gives_value(eq)
                    &&& exists|k: int| #[trigger]
                        place(k) && taipe_at(taipe, t, i + 2, k) && token_at(t, k, eq) && expr_at(
                            e,
                            t,
                            k + 1,
                            j,
                        )
                },
                _ => false,
            }
        },
    }
}

/// Whether the tokens from a place up to another one are a parameter of a function.
#[verifier::opaque]
pub open spec fn param_at(p: ParamView, t: Seq<TokenView>, i: int, j: int) -> bool
    decreases p, 5nat,
{
    &&& token_at(t, i, p.name)
    &&& p.name.kind == TokenKind::Ident
    &&& kind_at(t, i + 1, TokenKind::Colon)
    &&& match (p.eq_token, p.expr) {
        (None, None) => taipe_at(p.taipe, t, i + 2, j),
        (Some(eq), Some(e)) => {
            &&& gives_value(eq)
            &&& exists|k: int| #[trigger]
                place(k) && taipe_at(p.taipe, t, i + 2, k) && token_at(t, k, eq)
                    && expr_at(e, t, k + 1, j)
        },
        _ => false,
    }
}

/// Whether the tokens from a place up to another one are a label, or there is none.
pub open spec fn label_at(label: Option<TokenView>, t: Seq<TokenView>, i: int, j: int) -> bool {
    match label {
        None => j == i,
        Some(token) => j == i + 1 && token_at(t, i, token) && token.kind == TokenKind::Label,
    }
}

/// Whether the tokens from a place up to another one are the first block of an 'if' statement, and
/// after 'else' the second one where there is one.
#[verifier::opaque]
pub open spec fn bodies_at(s: StmtView, t: Seq<TokenView>, i: int, j: int) -> bool
    decreases s, 4nat,
{
    match s {
        StmtView::If { line_info: _, expr: _, then_body, else_body } => {
            &&& *then_body is Block
            &&& match else_body {
                None => stmt_at(*then_body, t, i, j),
                Some(other) => {
                    &&& *other is Block
                    &&& exists|k: int| #[trigger]
                        place(k) && stmt_at(*then_body, t, i, k)
                            && kind_at(t, k, TokenKind::Else) && stmt_at(
                            *other,
                            t,
                            k + 1,
                            j,
                        )
                },
            }
        },
        _ => false,
    }
}

/// Whether the tokens from a place up to another one are a statement.
#[verifier::opaque]
pub open spec fn stmt_at(s: StmtView, t: Seq<TokenView>, i: int, j: int) -> bool
    decreases s, 5nat,
{
    match s {
        StmtView::If { line_info, expr, then_body, else_body } => {
            &&& is_region(t, i, j, line_info)
            &&& kind_at(t, i, TokenKind::If)
            &&& exists|k: int| #[trigger]
                place(k) && expr_at(expr, t, i + 1, k) && bodies_at(s, t, k, j)
        },
        StmtView::While { line_info, label, expr, then_body } => {
            let begin = if label is Some {
                i + 1
            } else {
                i
            };
            &&& is_region(t, i, j, line_info)
            &&& label_at(label, t, i, begin)
            &&& kind_at(t, begin, TokenKind::While)
            &&& *then_body is Block
            &&& exists|k: int| #[trigger]
                place(k) && expr_at(expr, t, begin + 1, k) && stmt_at(*then_body, t, k, j)
        },
        StmtView::Block { line_info, stmts } => {
            &&& is_region(t, i, j, line_info)
            &&& kind_at(t, i, TokenKind::LBrace)
            &&& stmts_at(stmts, stmts.len() as int, t, i + 1, j - 1)
            &&& kind_at(t, j - 1, TokenKind::RBrace)
        },
        StmtView::Yield { token, expr } => {
            &&& token_at(t, i, token)
            &&& token.kind == TokenKind::Yield
            &&& expr_at(expr, t, i + 1, j - 1)
            &&& kind_at(t, j - 1, TokenKind::Semicolon)
        },
        StmtView::Continue { token, label } => {
            &&& token_at(t, i, token)
            &&& token.kind == TokenKind::Continue
            &&& label_at(label, t, i + 1, j - 1)
            &&& kind_at(t, j - 1, TokenKind::Semicolon)
        },
        StmtView::Break { token, label } => {
            &&& token_at(t, i, token)
            &&& token.kind == TokenKind::Break
            &&& label_at(label, t, i + 1, j - 1)
            &&& kind_at(t, j - 1, TokenKind::Semicolon)
        },
        StmtView::Return { token, expr } => {
            &&& token_at(t, i, token)
            &&& token.kind == TokenKind::Return
            &&& match expr {
                None => j == i + 2,
                Some(e) => expr_at(e, t, i + 1, j - 1),
            }
            &&& kind_at(t, j - 1, TokenKind::Semicolon)
        },
        StmtView::Decl(decl) => decl_at(*decl, t, i, j),
        StmtView::Expr(expr) => {
            &&& expr_at(*expr, t, i, j - 1)
            &&& kind_at(t, j - 1, TokenKind::Semicolon)
        },
        StmtView::Nop(token) => {
            &&& j == i + 1
            &&& token_at(t, i, token)
            &&& token.kind == TokenKind::Semicolon
        },
    }
}

/// Whether the tokens from a place up to another one are the first statements of several, one
/// after the other.
#[verifier::opaque]
pub open spec fn stmts_at(items: Seq<StmtView>, n: int, t: Seq<TokenView>, i: int, j: int) -> bool
    decreases items, n,
{
    if n <= 0 {
        j == i
    } else if n > items.len() {
        false
    } else {
        exists|k: int| #[trigger]
            place(k) && stmts_at(items, n - 1, t, i, k) && stmt_at(items[n - 1], t, k, j)
    }
}

/// Whether the tokens from a place up to another one are the first declarations of several, one
/// after the other.
#[verifier::opaque]
pub open spec fn decls_at(items: Seq<DeclView>, n: int, t: Seq<TokenView>, i: int, j: int) -> bool
    decreases items, n,
{
    if n <= 0 {
        j == i
    } else if n > items.len() {
        false
    } else {
        exists|k: int| #[trigger]
            place(k) && decls_at(items, n - 1, t, i, k) && decl_at(items[n - 1], t, k, j)
    }
}

/// Whether the tokens from a place up to another one are a declaration.
#[verifier::opaque]
pub open spec fn decl_at(d: DeclView, t: Seq<TokenView>, i: int, j: int) -> bool
    decreases d, 5nat,
{
    match d {
        DeclView::Decl { name, taipe, eq_token, object } => {
            &&& token_at(t, i, name)
            &&& name.kind == TokenKind::Ident || name.kind == TokenKind::Underscore
            &&& kind_at(t, i + 1, TokenKind::Colon)
            &&& match (taipe, eq_token, object) {
                (None, Some(eq), Some(o)) => {
                    &&& token_at(t, i + 2, eq)
                    &&& gives_value(eq)
                    &&& object_at(o, t, i + 3, j)
                },
                (Some(ty), None, None) => {
                    &&& taipe_at(ty, t, i + 2, j - 1)
                    &&& kind_at(t, j - 1, TokenKind::Semicolon)
                },
                (Some(ty), Some(eq), Some(o)) => {
                    &&& gives_value(eq)
                    &&& exists|k: int| #[trigger]
                        place(k) && taipe_at(ty, t, i + 2, k) && token_at(t, k, eq) && object_at(
                            o,
                            t,
                            k + 1,
                            j,
                        )
                },
                _ => false,
            }
        },
        DeclView::Using { line_info, items } => {
            &&& is_region(t, i, j, line_info)
            &&& kind_at(t, i, TokenKind::Using)
            &&& path_at(items, t, i + 1, j - 1)
            &&& forall|m: int|
                0 <= m < items.len() - 1 ==> (#[trigger] items[m]).kind == TokenKind::Ident
            &&& items.last().kind == TokenKind::Ident || (items.len() > 1 && items.last().kind
                == TokenKind::Star)
            &&& kind_at(t, j - 1, TokenKind::Semicolon)
        },
        DeclView::DeclWithDirective { .. } => false,
    }
}

/// Whether the tokens from a place up to another one are the body of a function: a block, or a
/// mark that there is none.
#[verifier::opaque]
pub open spec fn body_at(o: ObjectView, t: Seq<TokenView>, i: int, j: int) -> bool
    decreases o, 3nat,
{
    match o {
        ObjectView::Fun { line_info: _, params: _, ret: _, body: None } => {
            j == i + 1 && kind_at(t, i, TokenKind::Semicolon)
        },
        ObjectView::Fun { line_info: _, params: _, ret: _, body: Some(block) } => {
            block is Block && stmt_at(block, t, i, j)
        },
        _ => false,
    }
}

/// Whether the tokens from a place up to another one are what a function returns, where it says
/// so, and its body.
#[verifier::opaque]
pub open spec fn result_at(o: ObjectView, t: Seq<TokenView>, i: int, j: int) -> bool
    decreases o, 4nat,
{
    match o {
        ObjectView::Fun { line_info: _, params: _, ret: None, body: _ } => body_at(o, t, i, j),
        ObjectView::Fun { line_info: _, params: _, ret: Some(ty), body: _ } => {
            &&& kind_at(t, i, TokenKind::Arrow)
            &&& exists|k: int| #[trigger]
                place(k) && taipe_at(ty, t, i + 1, k) && body_at(o, t, k, j)
        },
        _ => false,
    }
}

/// Whether the tokens from a place up to another one are what a declaration gives a name to.
#[verifier::opaque]
pub open spec fn object_at(o: ObjectView, t: Seq<TokenView>, i: int, j: int) -> bool
    decreases o, 5nat,
{
    match o {
        ObjectView::ExternModule { line_info, value } => {
            &&& j == i + 3
            &&& kind_at(t, i, TokenKind::Module)
            &&& token_at(t, i + 1, value)
            &&& value.kind == TokenKind::StringLit
            &&& kind_at(t, i + 2, TokenKind::Semicolon)
            &&& line_info == span_from(t[i].line_info, value.line_info)
        },
        ObjectView::Module { line_info, decls } => {
            &&& is_region(t, i, j, line_info)
            &&& kind_at(t, i, TokenKind::Module)
            &&& kind_at(t, i + 1, TokenKind::LBrace)
            &&& decls_at(decls, decls.len() as int, t, i + 2, j - 1)
            &&& kind_at(t, j - 1, TokenKind::RBrace)
        },
        ObjectView::Fun { line_info, params, ret, body } => {
            &&& is_region(t, i, j, line_info)
            &&& kind_at(t, i, TokenKind::Fun)
            &&& kind_at(t, i + 1, TokenKind::LParen)
            &&& exists|k: int| #[trigger]
                place(k) && params_at(params, t, i + 2, k) && kind_at(t, k, TokenKind::RParen)
                    && result_at(o, t, k + 1, j)
        },
        ObjectView::Compound { line_info, field } => {
            &&& field is Compound
            &&& line_info == field.span()
            &&& field_at(field, t, i, j)
        },
        ObjectView::Typedef(ty) => {
            &&& kind_at(t, i, TokenKind::Typedef)
            &&& taipe_at(ty, t, i + 1, j - 1)
            &&& kind_at(t, j - 1, TokenKind::Semicolon)
        },
        ObjectView::Expr(expr) => {
            &&& expr_at(expr, t, i, j - 1)
            &&& kind_at(t, j - 1, TokenKind::Semicolon)
        },
    }
}

/// Whether the tokens from a place up to another one are the first expressions of several, with a
/// comma after each of them.
#[verifier::opaque]
pub open spec fn exprs_before(
    items: Seq<ExprView>,
    n: int,
    t: Seq<TokenView>,
    i: int,
    j: int,
) -> bool
    decreases items, n,
{
    if n <= 0 {
        j == i
    } else if n > items.len() {
        false
    } else {
        &&& kind_at(t, j - 1, TokenKind::Comma)
        &&& exists|k: int| #[trigger]
            place(k) && exprs_before(items, n - 1, t, i, k) && expr_at(items[n - 1], t, k, j - 1)
    }
}

/// Whether the tokens from a place up to another one are expressions with commas between them, and
/// perhaps one at the end.
#[verifier::opaque]
pub open spec fn exprs_at(items: Seq<ExprView>, t: Seq<TokenView>, i: int, j: int) -> bool
    decreases items, items.len() + 1,
{
    ||| exprs_before(items, items.len() as int, t, i, j)
    ||| items.len() > 0 && exists|k: int| #[trigger]
        place(k) && exprs_before(items, items.len() - 1, t, i, k) && expr_at(items.last(), t, k, j)
}

/// Whether the tokens from a place up to another one are the first arguments of several, with a
/// comma after each of them.
#[verifier::opaque]
pub open spec fn args_before(items: Seq<ArgView>, n: int, t: Seq<TokenView>, i: int, j: int) -> bool
    decreases items, n,
{
    if n <= 0 {
        j == i
    } else if n > items.len() {
        false
    } else {
        &&& kind_at(t, j - 1, TokenKind::Comma)
        &&& exists|k: int| #[trigger]
            place(k) && args_before(items, n - 1, t, i, k) && arg_at(items[n - 1], t, k, j - 1)
    }
}

/// Whether the tokens from a place up to another one are arguments with commas between them, and
/// perhaps one at the end.
#[verifier::opaque]
pub open spec fn args_at(items: Seq<ArgView>, t: Seq<TokenView>, i: int, j: int) -> bool
    decreases items, items.len() + 1,
{
    ||| args_before(items, items.len() as int, t, i, j)
    ||| items.len() > 0 && exists|k: int| #[trigger]
        place(k) && args_before(items, items.len() - 1, t, i, k) && arg_at(items.last(), t, k, j)
}

/// Whether the tokens from a place up to another one are the first types of several, with a comma
/// after each of them.
#[verifier::opaque]
pub open spec fn taipes_before(
    items: Seq<TypeView>,
    n: int,
    t: Seq<TokenView>,
    i: int,
    j: int,
) -> bool
    decreases items, n,
{
    if n <= 0 {
        j == i
    } else if n > items.len() {
        false
    } else {
        &&& kind_at(t, j - 1, TokenKind::Comma)
        &&& exists|k: int| #[trigger]
            place(k) && taipes_before(items, n - 1, t, i, k) && taipe_at(items[n - 1], t, k, j - 1)
    }
}

/// Whether the tokens from a place up to another one are types with commas between them, and
/// perhaps one at the end.
#[verifier::opaque]
pub open spec fn taipes_at(items: Seq<TypeView>, t: Seq<TokenView>, i: int, j: int) -> bool
    decreases items, items.len() + 1,
{
    ||| taipes_before(items, items.len() as int, t, i, j)
    ||| items.len() > 0 && exists|k: int| #[trigger]
        place(k) && taipes_before(items, items.len() - 1, t, i, k)
            && taipe_at(items.last(), t, k, j)
}

/// Whether the tokens from a place up to another one are the first fields of several, with a comma
/// after each of them.
#[verifier::opaque]
pub open spec fn fields_before(
    items: Seq<FieldView>,
    n: int,
    t: Seq<TokenView>,
    i: int,
    j: int,
) -> bool
    decreases items, n,
{
    if n <= 0 {
        j == i
    } else if n > items.len() {
        false
    } else {
        &&& kind_at(t, j - 1, TokenKind::Comma)
        &&& exists|k: int| #[trigger]
            place(k) && fields_before(items, n - 1, t, i, k) && field_at(items[n - 1], t, k, j - 1)
    }
}

/// Whether the tokens from a place up to another one are fields with commas between them, and
/// perhaps one at the end.
#[verifier::opaque]
pub open spec fn fields_at(items: Seq<FieldView>, t: Seq<TokenView>, i: int, j: int) -> bool
    decreases items, items.len() + 1,
{
    ||| fields_before(items, items.len() as int, t, i, j)
    ||| items.len() > 0 && exists|k: int| #[trigger]
        place(k) && fields_before(items, items.len() - 1, t, i, k)
            && field_at(items.last(), t, k, j)
}

/// Whether the tokens from a place up to another one are the first parameters of several, with a
/// comma after each of them.
#[verifier::opaque]
pub open spec fn params_before(
    items: Seq<ParamView>,
    n: int,
    t: Seq<TokenView>,
    i: int,
    j: int,
) -> bool
    decreases items, n,
{
    if n <= 0 {
        j == i
    } else if n > items.len() {
        false
    } else {
        &&& kind_at(t, j - 1, TokenKind::Comma)
        &&& exists|k: int| #[trigger]
            place(k) && params_before(items, n - 1, t, i, k) && param_at(items[n - 1], t, k, j - 1)
    }
}

/// Whether the tokens from a place up to another one are parameters with commas between them, and
/// perhaps one at the end.
#[verifier::opaque]
pub open spec fn params_at(items: Seq<ParamView>, t: Seq<TokenView>, i: int, j: int) -> bool
    decreases items, items.len() + 1,
{
    ||| params_before(items, items.len() as int, t, i, j)
    ||| items.len() > 0 && exists|k: int| #[trigger]
        place(k) && params_before(items, items.len() - 1, t, i, k)
            && param_at(items.last(), t, k, j)
}

/// Whether a state of the parser stands within its tokens.
pub open spec fn is_within(s: ParseState) -> bool {
    0 <= s.index <= s.tokens.len()
}

/// Whether a state comes after another one: it stands in the same tokens, not before it, and has
/// all of its reports.
pub open spec fn goes(s: ParseState, r: ParseState) -> bool {
    &&& r.tokens == s.tokens
    &&& r.file_path == s.file_path
    &&& s.index <= r.index <= s.tokens.len()
    &&& s.errors.len() <= r.errors.len()
}

/// Whether a state comes after another one, and tokens were read in between.
pub open spec fn moves(s: ParseState, r: ParseState) -> bool {
    goes(s, r) && s.index < r.index
}

/// Whether nothing was reported between two states.
pub open spec fn is_clean(s: ParseState, r: ParseState) -> bool {
    r.errors.len() == s.errors.len()
}

/// Whether an expression that was read is what its tokens say, where nothing was reported, and
/// holds together as strongly as it has to.
pub open spec fn expr_read(s: ParseState, r: Parsed<ExprView>, least: int) -> bool {
    r.result matches Ok(e) ==> {
        &&& moves(s, r.state)
        &&& strength(e) >= least
        &&& is_clean(s, r.state) ==> expr_at(e, s.tokens, s.index, r.state.index)
    }
}

/// Whether an expression that was read on from an operand is what its tokens say, where the operand
/// is and nothing was reported.
pub open spec fn rest_read(
    s: ParseState,
    r: Parsed<ExprView>,
    start: int,
    left: ExprView,
    least: int,
) -> bool {
    r.result matches Ok(e) ==> {
        &&& goes(s, r.state)
        &&& strength(e) >= least
        &&& is_clean(s, r.state) && expr_at(left, s.tokens, start, s.index) ==> expr_at(
            e,
            s.tokens,
            start,
            r.state.index,
        )
    }
}

/// Whether an argument that was read is what its tokens say, where nothing was reported.
pub open spec fn arg_read(s: ParseState, r: Parsed<ArgView>) -> bool {
    r.result matches Ok(e) ==> {
        &&& moves(s, r.state)
        &&& is_clean(s, r.state) ==> arg_at(e, s.tokens, s.index, r.state.index)
    }
}

/// Whether a type that was read is what its tokens say, where nothing was reported.
pub open spec fn taipe_read(s: ParseState, r: Parsed<TypeView>) -> bool {
    r.result matches Ok(e) ==> {
        &&& moves(s, r.state)
        &&& is_clean(s, r.state) ==> taipe_at(e, s.tokens, s.index, r.state.index)
    }
}

/// Whether a field that was read is what its tokens say, where nothing was reported.
pub open spec fn field_read(s: ParseState, r: Parsed<FieldView>) -> bool {
    r.result matches Ok(e) ==> {
        &&& moves(s, r.state)
        &&& is_clean(s, r.state) ==> field_at(e, s.tokens, s.index, r.state.index)
    }
}

/// Whether a parameter that was read is what its tokens say, where nothing was reported.
pub open spec fn param_read(s: ParseState, r: Parsed<ParamView>) -> bool {
    r.result matches Ok(e) ==> {
        &&& moves(s, r.state)
        &&& is_clean(s, r.state) ==> param_at(e, s.tokens, s.index, r.state.index)
    }
}

/// Whether a statement that was read is what its tokens say, where nothing was reported.
pub open spec fn stmt_read(s: ParseState, r: Parsed<StmtView>) -> bool {
    r.result matches Ok(e) ==> {
        &&& moves(s, r.state)
        &&& is_clean(s, r.state) ==> stmt_at(e, s.tokens, s.index, r.state.index)
    }
}

/// Whether a declaration that was read is what its tokens say, where nothing was reported.
pub open spec fn decl_read(s: ParseState, r: Parsed<DeclView>) -> bool {
    r.result matches Ok(e) ==> {
        &&& moves(s, r.state)
        &&& is_clean(s, r.state) ==> decl_at(e, s.tokens, s.index, r.state.index)
    }
}

/// Whether an object that was read is what its tokens say, where nothing was reported.
pub open spec fn object_read(s: ParseState, r: Parsed<ObjectView>) -> bool {
    r.result matches Ok(e) ==> {
        &&& moves(s, r.state)
        &&& is_clean(s, r.state) ==> object_at(e, s.tokens, s.index, r.state.index)
    }
}

proof fn lemma_past(s: ParseState, n: ParseState)
    requires
        is_within(s),
        moves(s, n),
    ensures
        s.past(n) == n,
{
}

proof fn mk_literal(token: TokenView, t: Seq<TokenView>, i: int)
    requires
        token_at(t, i, token),
        is_atom(token.kind),
    ensures
        expr_at(ExprView::Literal(token), t, i, i + 1),
{
    reveal(expr_at);
}

proof fn mk_unary(op: TokenView, expr: ExprView, t: Seq<TokenView>, i: int, j: int)
    requires
        token_at(t, i, op),
        unary_strength(op.kind) > 0,
        strength(expr) >= unary_strength(op.kind),
        op.kind == TokenKind::Not || strength(expr) >= 10,
        expr_at(expr, t, i + 1, j),
    ensures
        expr_at(ExprView::Unary { op, expr: Box::new(expr) }, t, i, j),
{
    reveal(expr_at);
}

proof fn mk_binary(
    left: ExprView,
    op: TokenView,
    right: ExprView,
    t: Seq<TokenView>,
    i: int,
    k: int,
    j: int,
)
    requires
        binary_strength(op.kind) > 0,
        strength(left) >= binary_strength(op.kind),
        strength(right) > binary_strength(op.kind),
        expr_at(left, t, i, k),
        token_at(t, k, op),
        expr_at(right, t, k + 1, j),
    ensures
        expr_at(ExprView::Binary { left: Box::new(left), op, right: Box::new(right) }, t, i, j),
{
    reveal(expr_at);
    assert(place(k));
}

proof fn mk_cast(expr: ExprView, taipe: TypeView, t: Seq<TokenView>, i: int, k: int, j: int)
    requires
        strength(expr) >= 8,
        expr_at(expr, t, i, k),
        kind_at(t, k, TokenKind::As),
        taipe_at(taipe, t, k + 1, j),
    ensures
        expr_at(ExprView::Cast { expr: Box::new(expr), taipe: Box::new(taipe) }, t, i, j),
{
    reveal(expr_at);
    reveal(taipe_at);
    assert(place(k));
}

proof fn mk_member(expr: ExprView, name: TokenView, t: Seq<TokenView>, i: int, k: int)
    requires
        strength(expr) >= 11,
        expr_at(expr, t, i, k),
        kind_at(t, k, TokenKind::Dot),
        token_at(t, k + 1, name),
        name.kind == TokenKind::Ident || name.kind == TokenKind::IntLit,
    ensures
        expr_at(ExprView::Member { expr: Box::new(expr), name }, t, i, k + 2),
{
    reveal(expr_at);
    assert(place(k));
}

proof fn mk_call(expr: ExprView, args: Seq<ArgView>, t: Seq<TokenView>, i: int, k: int, j: int)
    requires
        strength(expr) >= 11,
        expr_at(expr, t, i, k),
        kind_at(t, k, TokenKind::LParen),
        args_at(args, t, k + 1, j),
        kind_at(t, j, TokenKind::RParen),
    ensures
        expr_at(ExprView::Call { line_info: span_from(expr.span(), t[j].line_info),
            expr: Box::new(expr), args }, t, i, j + 1),
{
    reveal(expr_at);
    reveal(args_at);
    assert(place(k));
}

proof fn mk_index(expr: ExprView, items: Seq<ExprView>, t: Seq<TokenView>, i: int, k: int, j: int)
    requires
        strength(expr) >= 11,
        expr_at(expr, t, i, k),
        kind_at(t, k, TokenKind::LBrack),
        exprs_at(items, t, k + 1, j),
        kind_at(t, j, TokenKind::RBrack),
    ensures
        expr_at(ExprView::Index { line_info: span_from(expr.span(), t[j].line_info),
            expr: Box::new(expr), items }, t, i, j + 1),
{
    reveal(expr_at);
    reveal(exprs_at);
    assert(place(k));
}

proof fn mk_paren(expr: ExprView, t: Seq<TokenView>, i: int, j: int)
    requires
        kind_at(t, i, TokenKind::LParen),
        i < j,
        expr_at(expr, t, i + 1, j),
        kind_at(t, j, TokenKind::RParen),
    ensures
        expr_at(ExprView::Paren { line_info: span_from(t[i].line_info, t[j].line_info),
            expr: Box::new(expr) }, t, i, j + 1),
{
    reveal(expr_at);
}

proof fn mk_tuple(exprs: Seq<ExprView>, t: Seq<TokenView>, i: int, j: int)
    requires
        kind_at(t, i, TokenKind::LParen),
        i < j,
        exprs_at(exprs, t, i + 1, j),
        kind_at(t, j, TokenKind::RParen),
    ensures
        expr_at(ExprView::Tuple { line_info: span_from(t[i].line_info, t[j].line_info), exprs },
            t, i, j + 1),
{
    reveal(expr_at);
    reveal(exprs_at);
}

proof fn mk_array(items: Seq<ExprView>, t: Seq<TokenView>, i: int, j: int)
    requires
        kind_at(t, i, TokenKind::LBrack),
        i < j,
        exprs_at(items, t, i + 1, j),
        kind_at(t, j, TokenKind::RBrack),
    ensures
        expr_at(ExprView::ArrayLit { line_info: span_from(t[i].line_info, t[j].line_info),
            items }, t, i, j + 1),
{
    reveal(expr_at);
    reveal(exprs_at);
}

proof fn mk_assign(
    lhses: Seq<ExprView>,
    op: TokenView,
    rhses: Seq<ExprView>,
    t: Seq<TokenView>,
    i: int,
    k: int,
    j: int,
)
    requires
        lhses.len() > 0,
        rhses.len() > 0,
        op.kind == TokenKind::Equal,
        exprs_at(lhses, t, i, k),
        token_at(t, k, op),
        exprs_at(rhses, t, k + 1, j),
    ensures
        expr_at(ExprView::Assign { lhses, op, rhses }, t, i, j),
{
    reveal(expr_at);
    reveal(exprs_at);
    assert(place(k));
}

proof fn mk_arg(expr: ExprView, t: Seq<TokenView>, i: int, j: int)
    requires
        expr_at(expr, t, i, j),
    ensures
        arg_at(ArgView { name: None, expr }, t, i, j),
{
    reveal(arg_at);
    reveal(expr_at);
}

proof fn mk_named_arg(name: TokenView, expr: ExprView, t: Seq<TokenView>, i: int, j: int)
    requires
        token_at(t, i, name),
        name.kind == TokenKind::Ident,
        kind_at(t, i + 1, TokenKind::Colon),
        expr_at(expr, t, i + 2, j),
    ensures
        arg_at(ArgView { name: Some(name), expr }, t, i, j),
{
    reveal(arg_at);
    reveal(expr_at);
}

proof fn mk_path(items: Seq<TokenView>, t: Seq<TokenView>, i: int, j: int)
    requires
        path_at(items, t, i, j),
        forall|m: int| 0 <= m < items.len() ==> (#[trigger] items[m]).kind == TokenKind::Ident,
    ensures
        taipe_at(TypeView::Path { items }, t, i, j),
{
    reveal(taipe_at);
}

proof fn mk_function_type(
    params: Seq<TypeView>,
    ret: TypeView,
    t: Seq<TokenView>,
    i: int,
    k: int,
    j: int,
)
    requires
        kind_at(t, i, TokenKind::Fun),
        kind_at(t, i + 1, TokenKind::LParen),
        taipes_at(params, t, i + 2, k),
        kind_at(t, k, TokenKind::RParen),
        kind_at(t, k + 1, TokenKind::Arrow),
        taipe_at(ret, t, k + 2, j),
    ensures
        taipe_at(TypeView::Function { line_info: span_from(t[i].line_info, ret.span()), params,
            ret: Box::new(ret) }, t, i, j),
{
    reveal(taipe_at);
    reveal(taipes_at);
    assert(place(k));
}

proof fn mk_const(token: TokenView, taipe: TypeView, t: Seq<TokenView>, i: int, j: int)
    requires
        token_at(t, i, token),
        token.kind == TokenKind::Const,
        taipe_at(taipe, t, i + 1, j),
    ensures
        taipe_at(TypeView::Const { token, taipe: Box::new(taipe) }, t, i, j),
{
    reveal(taipe_at);
}

proof fn mk_pointer(token: TokenView, taipe: TypeView, t: Seq<TokenView>, i: int, j: int)
    requires
        token_at(t, i, token),
        token.kind == TokenKind::Star,
        taipe_at(taipe, t, i + 1, j),
    ensures
        taipe_at(TypeView::Pointer { token, taipe: Box::new(taipe) }, t, i, j),
{
    reveal(taipe_at);
}

proof fn mk_open_array(taipe: TypeView, t: Seq<TokenView>, i: int, j: int)
    requires
        kind_at(t, i, TokenKind::LBrack),
        kind_at(t, i + 1, TokenKind::Underscore),
        kind_at(t, i + 2, TokenKind::RBrack),
        taipe_at(taipe, t, i + 3, j),
        i < j <= t.len(),
    ensures
        taipe_at(TypeView::Array { line_info: span_from(t[i].line_info, t[j - 1].line_info),
            taipe: Box::new(taipe), expr: None }, t, i, j),
{
    reveal(taipe_at);
}

proof fn mk_array_type(expr: ExprView, taipe: TypeView, t: Seq<TokenView>, i: int, k: int, j: int)
    requires
        kind_at(t, i, TokenKind::LBrack),
        expr_at(expr, t, i + 1, k),
        kind_at(t, k, TokenKind::RBrack),
        taipe_at(taipe, t, k + 1, j),
        i < j <= t.len(),
    ensures
        taipe_at(TypeView::Array { line_info: span_from(t[i].line_info, t[j - 1].line_info),
            taipe: Box::new(taipe), expr: Some(expr) }, t, i, j),
{
    reveal(taipe_at);
    reveal(expr_at);
    assert(place(k));
}

proof fn mk_fat(taipe: TypeView, t: Seq<TokenView>, i: int, j: int)
    requires
        kind_at(t, i, TokenKind::LBrack),
        kind_at(t, i + 1, TokenKind::RBrack),
        taipe_at(taipe, t, i + 2, j),
        i < j <= t.len(),
    ensures
        taipe_at(TypeView::Fat { line_info: span_from(t[i].line_info, t[j - 1].line_info),
            taipe: Box::new(taipe) }, t, i, j),
{
    reveal(taipe_at);
}

proof fn mk_paren_type(taipe: TypeView, t: Seq<TokenView>, i: int, j: int)
    requires
        kind_at(t, i, TokenKind::LParen),
        i < j,
        taipe_at(taipe, t, i + 1, j),
        kind_at(t, j, TokenKind::RParen),
    ensures
        taipe_at(TypeView::Paren { line_info: span_from(t[i].line_info, t[j].line_info),
            taipe: Box::new(taipe) }, t, i, j + 1),
{
    reveal(taipe_at);
}

proof fn mk_tuple_type(types: Seq<TypeView>, t: Seq<TokenView>, i: int, j: int)
    requires
        kind_at(t, i, TokenKind::LParen),
        i < j,
        taipes_at(types, t, i + 1, j),
        kind_at(t, j, TokenKind::RParen),
    ensures
        taipe_at(TypeView::Tuple { line_info: span_from(t[i].line_info, t[j].line_info), types },
            t, i, j + 1),
{
    reveal(taipe_at);
    reveal(taipes_at);
}

proof fn mk_literal_type(token: TokenView, t: Seq<TokenView>, i: int)
    requires
        token_at(t, i, token),
        token.kind == TokenKind::Void || token.kind == TokenKind::Noreturn || token.kind == TokenKind::Typedef,
    ensures
        taipe_at(TypeView::Literal(token), t, i, i + 1),
{
    reveal(taipe_at);
}

proof fn mk_field(name: TokenView, taipe: TypeView, t: Seq<TokenView>, i: int, j: int)
    requires
        token_at(t, i, name),
        name.kind == TokenKind::Ident || name.kind == TokenKind::Underscore,
        kind_at(t, i + 1, TokenKind::Colon),
        taipe_at(taipe, t, i + 2, j),
    ensures
        field_at(FieldView::Decl { name, taipe, eq_token: None, expr: None }, t, i, j),
{
    reveal(field_at);
    reveal(taipe_at);
}

proof fn mk_field_value(
    name: TokenView,
    taipe: TypeView,
    eq: TokenView,
    expr: ExprView,
    t: Seq<TokenView>,
    i: int,
    k: int,
    j: int,
)
    requires
        token_at(t, i, name),
        name.kind == TokenKind::Ident || name.kind == TokenKind::Underscore,
        kind_at(t, i + 1, TokenKind::Colon),
        taipe_at(taipe, t, i + 2, k),
        token_at(t, k, eq),
        gives_value(eq),
        expr_at(expr, t, k + 1, j),
    ensures
        field_at(FieldView::Decl { name, taipe, eq_token: Some(eq), expr: Some(expr) }, t, i, j),
{
    reveal(field_at);
    reveal(taipe_at);
    reveal(expr_at);
    assert(place(k));
}

proof fn mk_param(name: TokenView, taipe: TypeView, t: Seq<TokenView>, i: int, j: int)
    requires
        token_at(t, i, name),
        name.kind == TokenKind::Ident,
        kind_at(t, i + 1, TokenKind::Colon),
        taipe_at(taipe, t, i + 2, j),
    ensures
        param_at(ParamView { name, taipe, eq_token: None, expr: None }, t, i, j),
{
    reveal(param_at);
    reveal(taipe_at);
}

proof fn mk_param_value(
    name: TokenView,
    taipe: TypeView,
    eq: TokenView,
    expr: ExprView,
    t: Seq<TokenView>,
    i: int,
    k: int,
    j: int,
)
    requires
        token_at(t, i, name),
        name.kind == TokenKind::Ident,
        kind_at(t, i + 1, TokenKind::Colon),
        taipe_at(taipe, t, i + 2, k),
        token_at(t, k, eq),
        gives_value(eq),
        expr_at(expr, t, k + 1, j),
    ensures
        param_at(ParamView { name, taipe, eq_token: Some(eq), expr: Some(expr) }, t, i, j),
{
    reveal(param_at);
    reveal(taipe_at);
    reveal(expr_at);
    assert(place(k));
}

proof fn mk_compound(token: TokenView, fields: Seq<FieldView>, t: Seq<TokenView>, i: int, j: int)
    requires
        token_at(t, i, token),
        token.kind == TokenKind::Struct || token.kind == TokenKind::Union,
        kind_at(t, i + 1, TokenKind::LBrace),
        fields_at(fields, t, i + 2, j),
        kind_at(t, j, TokenKind::RBrace),
        i < j,
    ensures
        field_at(FieldView::Compound { line_info: span_from(t[i].line_info, t[j].line_info),
            token, fields }, t, i, j + 1),
{
    reveal(field_at);
    reveal(fields_at);
}

proof fn mk_if(expr: ExprView, then_body: StmtView, t: Seq<TokenView>, i: int, k: int, j: int)
    requires
        kind_at(t, i, TokenKind::If),
        expr_at(expr, t, i + 1, k),
        then_body is Block,
        stmt_at(then_body, t, k, j),
        i < j <= t.len(),
    ensures
        stmt_at(StmtView::If { line_info: span_from(t[i].line_info, t[j - 1].line_info), expr,
            then_body: Box::new(then_body), else_body: None }, t, i, j),
{
    reveal(stmt_at);
    reveal(bodies_at);
    reveal(expr_at);
    assert(place(k));
    let s = StmtView::If {
        line_info: span_from(t[i].line_info, t[j - 1].line_info),
        expr,
        then_body: Box::new(then_body),
        else_body: None,
    };
    assert(bodies_at(s, t, k, j));
}

proof fn mk_if_else(
    expr: ExprView,
    then_body: StmtView,
    else_body: StmtView,
    t: Seq<TokenView>,
    i: int,
    k: int,
    m: int,
    j: int,
)
    requires
        kind_at(t, i, TokenKind::If),
        expr_at(expr, t, i + 1, k),
        then_body is Block,
        else_body is Block,
        stmt_at(then_body, t, k, m),
        kind_at(t, m, TokenKind::Else),
        stmt_at(else_body, t, m + 1, j),
        i < j <= t.len(),
    ensures
        stmt_at(StmtView::If { line_info: span_from(t[i].line_info, t[j - 1].line_info), expr,
            then_body: Box::new(then_body), else_body: Some(Box::new(else_body)) }, t, i, j),
{
    reveal(stmt_at);
    reveal(bodies_at);
    reveal(expr_at);
    assert(place(k));
    assert(place(m));
    let s = StmtView::If {
        line_info: span_from(t[i].line_info, t[j - 1].line_info),
        expr,
        then_body: Box::new(then_body),
        else_body: Some(Box::new(else_body)),
    };
    assert(bodies_at(s, t, k, j));
}

proof fn mk_while(
    label: Option<TokenView>,
    expr: ExprView,
    body: StmtView,
    t: Seq<TokenView>,
    i: int,
    w: int,
    k: int,
    j: int,
)
    requires
        label_at(label, t, i, w),
        kind_at(t, w, TokenKind::While),
        expr_at(expr, t, w + 1, k),
        body is Block,
        stmt_at(body, t, k, j),
        0 <= i < j <= t.len(),
    ensures
        stmt_at(StmtView::While { line_info: span_from(t[i].line_info, t[j - 1].line_info), label,
            expr, then_body: Box::new(body) }, t, i, j),
{
    reveal(stmt_at);
    reveal(expr_at);
    assert(place(k));
}

proof fn mk_block(stmts: Seq<StmtView>, t: Seq<TokenView>, i: int, j: int)
    requires
        kind_at(t, i, TokenKind::LBrace),
        i < j,
        stmts_at(stmts, stmts.len() as int, t, i + 1, j),
        kind_at(t, j, TokenKind::RBrace),
    ensures
        stmt_at(StmtView::Block { line_info: span_from(t[i].line_info, t[j].line_info), stmts },
            t, i, j + 1),
{
    reveal(stmt_at);
    reveal(stmts_at);
}

proof fn mk_yield(token: TokenView, expr: ExprView, t: Seq<TokenView>, i: int, j: int)
    requires
        token_at(t, i, token),
        token.kind == TokenKind::Yield,
        expr_at(expr, t, i + 1, j),
        kind_at(t, j, TokenKind::Semicolon),
    ensures
        stmt_at(StmtView::Yield { token, expr }, t, i, j + 1),
{
    reveal(stmt_at);
    reveal(expr_at);
}

proof fn mk_continue(token: TokenView, label: Option<TokenView>, t: Seq<TokenView>, i: int, j: int)
    requires
        token_at(t, i, token),
        token.kind == TokenKind::Continue,
        label_at(label, t, i + 1, j),
        kind_at(t, j, TokenKind::Semicolon),
    ensures
        stmt_at(StmtView::Continue { token, label }, t, i, j + 1),
{
    reveal(stmt_at);
}

proof fn mk_break(token: TokenView, label: Option<TokenView>, t: Seq<TokenView>, i: int, j: int)
    requires
        token_at(t, i, token),
        token.kind == TokenKind::Break,
        label_at(label, t, i + 1, j),
        kind_at(t, j, TokenKind::Semicolon),
    ensures
        stmt_at(StmtView::Break { token, label }, t, i, j + 1),
{
    reveal(stmt_at);
}

proof fn mk_return(token: TokenView, t: Seq<TokenView>, i: int)
    requires
        token_at(t, i, token),
        token.kind == TokenKind::Return,
        kind_at(t, i + 1, TokenKind::Semicolon),
    ensures
        stmt_at(StmtView::Return { token, expr: None }, t, i, i + 2),
{
    reveal(stmt_at);
}

proof fn mk_return_value(token: TokenView, expr: ExprView, t: Seq<TokenView>, i: int, j: int)
    requires
        token_at(t, i, token),
        token.kind == TokenKind::Return,
        expr_at(expr, t, i + 1, j),
        kind_at(t, j, TokenKind::Semicolon),
    ensures
        stmt_at(StmtView::Return { token, expr: Some(expr) }, t, i, j + 1),
{
    reveal(stmt_at);
    reveal(expr_at);
}

proof fn mk_decl_stmt(decl: DeclView, t: Seq<TokenView>, i: int, j: int)
    requires
        decl_at(decl, t, i, j),
    ensures
        stmt_at(StmtView::Decl(Box::new(decl)), t, i, j),
{
    reveal(stmt_at);
    reveal(decl_at);
}

proof fn mk_expr_stmt(expr: ExprView, t: Seq<TokenView>, i: int, j: int)
    requires
        expr_at(expr, t, i, j),
        kind_at(t, j, TokenKind::Semicolon),
    ensures
        stmt_at(StmtView::Expr(Box::new(expr)), t, i, j + 1),
{
    reveal(stmt_at);
    reveal(expr_at);
}

proof fn mk_nop(token: TokenView, t: Seq<TokenView>, i: int)
    requires
        token_at(t, i, token),
        token.kind == TokenKind::Semicolon,
    ensures
        stmt_at(StmtView::Nop(token), t, i, i + 1),
{
    reveal(stmt_at);
}

proof fn mk_typed_decl(name: TokenView, taipe: TypeView, t: Seq<TokenView>, i: int, j: int)
    requires
        token_at(t, i, name),
        name.kind == TokenKind::Ident || name.kind == TokenKind::Underscore,
        kind_at(t, i + 1, TokenKind::Colon),
        taipe_at(taipe, t, i + 2, j),
        kind_at(t, j, TokenKind::Semicolon),
    ensures
        decl_at(DeclView::Decl { name, taipe: Some(taipe), eq_token: None, object: None }, t, i,
            j + 1),
{
    reveal(decl_at);
    reveal(taipe_at);
}

proof fn mk_valued_decl(
    name: TokenView,
    taipe: TypeView,
    eq: TokenView,
    object: ObjectView,
    t: Seq<TokenView>,
    i: int,
    k: int,
    j: int,
)
    requires
        token_at(t, i, name),
        name.kind == TokenKind::Ident || name.kind == TokenKind::Underscore,
        kind_at(t, i + 1, TokenKind::Colon),
        taipe_at(taipe, t, i + 2, k),
        token_at(t, k, eq),
        gives_value(eq),
        object_at(object, t, k + 1, j),
    ensures
        decl_at(DeclView::Decl { name, taipe: Some(taipe), eq_token: Some(eq),
            object: Some(object) }, t, i, j),
{
    reveal(decl_at);
    reveal(taipe_at);
    reveal(object_at);
    assert(place(k));
}

proof fn mk_plain_decl(
    name: TokenView,
    eq: TokenView,
    object: ObjectView,
    t: Seq<TokenView>,
    i: int,
    j: int,
)
    requires
        token_at(t, i, name),
        name.kind == TokenKind::Ident || name.kind == TokenKind::Underscore,
        kind_at(t, i + 1, TokenKind::Colon),
        token_at(t, i + 2, eq),
        gives_value(eq),
        object_at(object, t, i + 3, j),
    ensures
        decl_at(DeclView::Decl { name, taipe: None, eq_token: Some(eq), object: Some(object) }, t,
            i, j),
{
    reveal(decl_at);
    reveal(object_at);
}

proof fn mk_using(items: Seq<TokenView>, t: Seq<TokenView>, i: int, j: int)
    requires
        kind_at(t, i, TokenKind::Using),
        i < j,
        path_at(items, t, i + 1, j),
        forall|m: int| 0 <= m < items.len() - 1 ==> (#[trigger] items[m]).kind == TokenKind::Ident,
        items.last().kind == TokenKind::Ident || (items.len() > 1
            && items.last().kind == TokenKind::Star),
        kind_at(t, j, TokenKind::Semicolon),
    ensures
        decl_at(DeclView::Using { line_info: span_from(t[i].line_info, t[j].line_info), items },
            t, i, j + 1),
{
    reveal(decl_at);
}

proof fn mk_extern_module(value: TokenView, t: Seq<TokenView>, i: int)
    requires
        kind_at(t, i, TokenKind::Module),
        token_at(t, i + 1, value),
        value.kind == TokenKind::StringLit,
        kind_at(t, i + 2, TokenKind::Semicolon),
    ensures
        object_at(ObjectView::ExternModule { line_info: span_from(t[i].line_info,
            value.line_info), value }, t, i, i + 3),
{
    reveal(object_at);
}

proof fn mk_module(decls: Seq<DeclView>, t: Seq<TokenView>, i: int, j: int)
    requires
        kind_at(t, i, TokenKind::Module),
        kind_at(t, i + 1, TokenKind::LBrace),
        decls_at(decls, decls.len() as int, t, i + 2, j),
        kind_at(t, j, TokenKind::RBrace),
        i < j,
    ensures
        object_at(ObjectView::Module { line_info: span_from(t[i].line_info, t[j].line_info),
            decls }, t, i, j + 1),
{
    reveal(object_at);
    reveal(decls_at);
}

/// Whether the tokens from a place up to another one are the rest of a function, after its
/// parameters.
pub open spec fn fun_rest(
    ret: Option<TypeView>,
    body: Option<StmtView>,
    t: Seq<TokenView>,
    i: int,
    k: int,
    j: int,
) -> bool {
    &&& match ret {
        None => k == i,
        Some(ty) => kind_at(t, i, TokenKind::Arrow) && taipe_at(ty, t, i + 1, k),
    }
    &&& match body {
        None => j == k + 1 && kind_at(t, k, TokenKind::Semicolon),
        Some(block) => block is Block && stmt_at(block, t, k, j),
    }
}

proof fn mk_fun(
    params: Seq<ParamView>,
    ret: Option<TypeView>,
    body: Option<StmtView>,
    t: Seq<TokenView>,
    i: int,
    p: int,
    k: int,
    j: int,
)
    requires
        kind_at(t, i, TokenKind::Fun),
        kind_at(t, i + 1, TokenKind::LParen),
        params_at(params, t, i + 2, p),
        kind_at(t, p, TokenKind::RParen),
        fun_rest(ret, body, t, p + 1, k, j),
        i < j <= t.len(),
    ensures
        object_at(ObjectView::Fun { line_info: span_from(t[i].line_info, t[j - 1].line_info),
            params, ret, body }, t, i, j),
{
    reveal(object_at);
    reveal(result_at);
    reveal(body_at);
    reveal(params_at);
    reveal(taipe_at);
    reveal(stmt_at);
    assert(place(k));
    assert(place(p));
    let o = ObjectView::Fun {
        line_info: span_from(t[i].line_info, t[j - 1].line_info),
        params,
        ret,
        body,
    };
    assert(body_at(o, t, k, j));
    assert(result_at(o, t, p + 1, j));
}

proof fn mk_compound_object(field: FieldView, t: Seq<TokenView>, i: int, j: int)
    requires
        field is Compound,
        field_at(field, t, i, j),
    ensures
        object_at(ObjectView::Compound { line_info: field.span(), field }, t, i, j),
{
    reveal(object_at);
    reveal(field_at);
}

proof fn mk_typedef(taipe: TypeView, t: Seq<TokenView>, i: int, j: int)
    requires
        kind_at(t, i, TokenKind::Typedef),
        taipe_at(taipe, t, i + 1, j),
        kind_at(t, j, TokenKind::Semicolon),
    ensures
        object_at(ObjectView::Typedef(taipe), t, i, j + 1),
{
    reveal(object_at);
    reveal(taipe_at);
}

proof fn mk_expr_object(expr: ExprView, t: Seq<TokenView>, i: int, j: int)
    requires
        expr_at(expr, t, i, j),
        kind_at(t, j, TokenKind::Semicolon),
    ensures
        object_at(ObjectView::Expr(expr), t, i, j + 1),
{
    reveal(object_at);
    reveal(expr_at);
}

proof fn lemma_stmts_push(
    items: Seq<StmtView>,
    item: StmtView,
    n: int,
    t: Seq<TokenView>,
    i: int,
    j: int,
)
    requires
        n <= items.len(),
        stmts_at(items, n, t, i, j),
    ensures
        stmts_at(items.push(item), n, t, i, j),
    decreases n,
{
    reveal(stmts_at);
    reveal(stmt_at);
    if n > 0 {
        let k = choose|k: int| #[trigger]
            place(k) && stmts_at(items, n - 1, t, i, k) && stmt_at(items[n - 1], t, k, j);
        lemma_stmts_push(items, item, n - 1, t, i, k);
        assert(items.push(item)[n - 1] == items[n - 1]);
        assert(place(k));
    }
}

proof fn lemma_stmts_more(
    items: Seq<StmtView>,
    item: StmtView,
    t: Seq<TokenView>,
    i: int,
    k: int,
    j: int,
)
    requires
        stmts_at(items, items.len() as int, t, i, k),
        stmt_at(item, t, k, j),
    ensures
        stmts_at(items.push(item), items.push(item).len() as int, t, i, j),
{
    lemma_stmts_push(items, item, items.len() as int, t, i, k);
    reveal(stmts_at);
    reveal(stmt_at);
    assert(items.push(item)[items.len() as int] == item);
    assert(place(k));
}

proof fn lemma_no_stmts(t: Seq<TokenView>, i: int)
    ensures
        stmts_at(seq![], 0, t, i, i),
{
    reveal(stmts_at);
}

proof fn lemma_decls_push(
    items: Seq<DeclView>,
    item: DeclView,
    n: int,
    t: Seq<TokenView>,
    i: int,
    j: int,
)
    requires
        n <= items.len(),
        decls_at(items, n, t, i, j),
    ensures
        decls_at(items.push(item), n, t, i, j),
    decreases n,
{
    reveal(decls_at);
    reveal(decl_at);
    if n > 0 {
        let k = choose|k: int| #[trigger]
            place(k) && decls_at(items, n - 1, t, i, k) && decl_at(items[n - 1], t, k, j);
        lemma_decls_push(items, item, n - 1, t, i, k);
        assert(items.push(item)[n - 1] == items[n - 1]);
        assert(place(k));
    }
}

proof fn lemma_decls_more(
    items: Seq<DeclView>,
    item: DeclView,
    t: Seq<TokenView>,
    i: int,
    k: int,
    j: int,
)
    requires
        decls_at(items, items.len() as int, t, i, k),
        decl_at(item, t, k, j),
    ensures
        decls_at(items.push(item), items.push(item).len() as int, t, i, j),
{
    lemma_decls_push(items, item, items.len() as int, t, i, k);
    reveal(decls_at);
    reveal(decl_at);
    assert(items.push(item)[items.len() as int] == item);
    assert(place(k));
}

proof fn lemma_no_decls(t: Seq<TokenView>, i: int)
    ensures
        decls_at(seq![], 0, t, i, i),
{
    reveal(decls_at);
}

proof fn lemma_exprs_push(
    items: Seq<ExprView>,
    item: ExprView,
    n: int,
    t: Seq<TokenView>,
    i: int,
    j: int,
)
    requires
        n <= items.len(),
        exprs_before(items, n, t, i, j),
    ensures
        exprs_before(items.push(item), n, t, i, j),
    decreases n,
{
    reveal(exprs_before);
    reveal(expr_at);
    if n > 0 {
        let k = choose|k: int| #[trigger]
            place(k) && exprs_before(items, n - 1, t, i, k) && expr_at(items[n - 1], t, k, j - 1);
        lemma_exprs_push(items, item, n - 1, t, i, k);
        assert(items.push(item)[n - 1] == items[n - 1]);
        assert(place(k));
    }
}

proof fn lemma_exprs_more(
    items: Seq<ExprView>,
    item: ExprView,
    t: Seq<TokenView>,
    i: int,
    k: int,
    j: int,
)
    requires
        exprs_before(items, items.len() as int, t, i, k),
        expr_at(item, t, k, j),
        kind_at(t, j, TokenKind::Comma),
    ensures
        exprs_before(items.push(item), items.push(item).len() as int, t, i, j + 1),
{
    lemma_exprs_push(items, item, items.len() as int, t, i, k);
    reveal(exprs_before);
    reveal(expr_at);
    assert(items.push(item)[items.len() as int] == item);
    assert(place(k));
}

proof fn lemma_exprs_last(
    items: Seq<ExprView>,
    item: ExprView,
    t: Seq<TokenView>,
    i: int,
    k: int,
    j: int,
)
    requires
        exprs_before(items, items.len() as int, t, i, k),
        expr_at(item, t, k, j),
    ensures
        exprs_at(items.push(item), t, i, j),
{
    lemma_exprs_push(items, item, items.len() as int, t, i, k);
    reveal(exprs_before);
    reveal(exprs_at);
    reveal(expr_at);
    assert(items.push(item).last() == item);
    assert(place(k));
    assert(exprs_before(items.push(item), items.push(item).len() - 1, t, i, k));
}

proof fn lemma_exprs_end(items: Seq<ExprView>, t: Seq<TokenView>, i: int, j: int)
    requires
        exprs_before(items, items.len() as int, t, i, j),
    ensures
        exprs_at(items, t, i, j),
{
    reveal(exprs_before);
    reveal(exprs_at);
}

proof fn lemma_no_exprs(t: Seq<TokenView>, i: int)
    ensures
        exprs_before(seq![], 0, t, i, i),
{
    reveal(exprs_before);
}

proof fn lemma_args_push(
    items: Seq<ArgView>,
    item: ArgView,
    n: int,
    t: Seq<TokenView>,
    i: int,
    j: int,
)
    requires
        n <= items.len(),
        args_before(items, n, t, i, j),
    ensures
        args_before(items.push(item), n, t, i, j),
    decreases n,
{
    reveal(args_before);
    reveal(arg_at);
    if n > 0 {
        let k = choose|k: int| #[trigger]
            place(k) && args_before(items, n - 1, t, i, k) && arg_at(items[n - 1], t, k, j - 1);
        lemma_args_push(items, item, n - 1, t, i, k);
        assert(items.push(item)[n - 1] == items[n - 1]);
        assert(place(k));
    }
}

proof fn lemma_args_more(
    items: Seq<ArgView>,
    item: ArgView,
    t: Seq<TokenView>,
    i: int,
    k: int,
    j: int,
)
    requires
        args_before(items, items.len() as int, t, i, k),
        arg_at(item, t, k, j),
        kind_at(t, j, TokenKind::Comma),
    ensures
        args_before(items.push(item), items.push(item).len() as int, t, i, j + 1),
{
    lemma_args_push(items, item, items.len() as int, t, i, k);
    reveal(args_before);
    reveal(arg_at);
    assert(items.push(item)[items.len() as int] == item);
    assert(place(k));
}

proof fn lemma_args_last(
    items: Seq<ArgView>,
    item: ArgView,
    t: Seq<TokenView>,
    i: int,
    k: int,
    j: int,
)
    requires
        args_before(items, items.len() as int, t, i, k),
        arg_at(item, t, k, j),
    ensures
        args_at(items.push(item), t, i, j),
{
    lemma_args_push(items, item, items.len() as int, t, i, k);
    reveal(args_before);
    reveal(args_at);
    reveal(arg_at);
    assert(items.push(item).last() == item);
    assert(place(k));
    assert(args_before(items.push(item), items.push(item).len() - 1, t, i, k));
}

proof fn lemma_args_end(items: Seq<ArgView>, t: Seq<TokenView>, i: int, j: int)
    requires
        args_before(items, items.len() as int, t, i, j),
    ensures
        args_at(items, t, i, j),
{
    reveal(args_before);
    reveal(args_at);
}

proof fn lemma_no_args(t: Seq<TokenView>, i: int)
    ensures
        args_before(seq![], 0, t, i, i),
{
    reveal(args_before);
}

proof fn lemma_taipes_push(
    items: Seq<TypeView>,
    item: TypeView,
    n: int,
    t: Seq<TokenView>,
    i: int,
    j: int,
)
    requires
        n <= items.len(),
        taipes_before(items, n, t, i, j),
    ensures
        taipes_before(items.push(item), n, t, i, j),
    decreases n,
{
    reveal(taipes_before);
    reveal(taipe_at);
    if n > 0 {
        let k = choose|k: int| #[trigger]
            place(k) && taipes_before(items, n - 1, t, i, k) && taipe_at(items[n - 1], t, k, j - 1);
        lemma_taipes_push(items, item, n - 1, t, i, k);
        assert(items.push(item)[n - 1] == items[n - 1]);
        assert(place(k));
    }
}

proof fn lemma_taipes_more(
    items: Seq<TypeView>,
    item: TypeView,
    t: Seq<TokenView>,
    i: int,
    k: int,
    j: int,
)
    requires
        taipes_before(items, items.len() as int, t, i, k),
        taipe_at(item, t, k, j),
        kind_at(t, j, TokenKind::Comma),
    ensures
        taipes_before(items.push(item), items.push(item).len() as int, t, i, j + 1),
{
    lemma_taipes_push(items, item, items.len() as int, t, i, k);
    reveal(taipes_before);
    reveal(taipe_at);
    assert(items.push(item)[items.len() as int] == item);
    assert(place(k));
}

proof fn lemma_taipes_last(
    items: Seq<TypeView>,
    item: TypeView,
    t: Seq<TokenView>,
    i: int,
    k: int,
    j: int,
)
    requires
        taipes_before(items, items.len() as int, t, i, k),
        taipe_at(item, t, k, j),
    ensures
        taipes_at(items.push(item), t, i, j),
{
    lemma_taipes_push(items, item, items.len() as int, t, i, k);
    reveal(taipes_before);
    reveal(taipes_at);
    reveal(taipe_at);
    assert(items.push(item).last() == item);
    assert(place(k));
    assert(taipes_before(items.push(item), items.push(item).len() - 1, t, i, k));
}

proof fn lemma_taipes_end(items: Seq<TypeView>, t: Seq<TokenView>, i: int, j: int)
    requires
        taipes_before(items, items.len() as int, t, i, j),
    ensures
        taipes_at(items, t, i, j),
{
    reveal(taipes_before);
    reveal(taipes_at);
}

proof fn lemma_no_taipes(t: Seq<TokenView>, i: int)
    ensures
        taipes_before(seq![], 0, t, i, i),
{
    reveal(taipes_before);
}

proof fn lemma_fields_push(
    items: Seq<FieldView>,
    item: FieldView,
    n: int,
    t: Seq<TokenView>,
    i: int,
    j: int,
)
    requires
        n <= items.len(),
        fields_before(items, n, t, i, j),
    ensures
        fields_before(items.push(item), n, t, i, j),
    decreases n,
{
    reveal(fields_before);
    reveal(field_at);
    if n > 0 {
        let k = choose|k: int| #[trigger]
            place(k) && fields_before(items, n - 1, t, i, k) && field_at(items[n - 1], t, k, j - 1);
        lemma_fields_push(items, item, n - 1, t, i, k);
        assert(items.push(item)[n - 1] == items[n - 1]);
        assert(place(k));
    }
}

proof fn lemma_fields_more(
    items: Seq<FieldView>,
    item: FieldView,
    t: Seq<TokenView>,
    i: int,
    k: int,
    j: int,
)
    requires
        fields_before(items, items.len() as int, t, i, k),
        field_at(item, t, k, j),
        kind_at(t, j, TokenKind::Comma),
    ensures
        fields_before(items.push(item), items.push(item).len() as int, t, i, j + 1),
{
    lemma_fields_push(items, item, items.len() as int, t, i, k);
    reveal(fields_before);
    reveal(field_at);
    assert(items.push(item)[items.len() as int] == item);
    assert(place(k));
}

proof fn lemma_fields_last(
    items: Seq<FieldView>,
    item: FieldView,
    t: Seq<TokenView>,
    i: int,
    k: int,
    j: int,
)
    requires
        fields_before(items, items.len() as int, t, i, k),
        field_at(item, t, k, j),
    ensures
        fields_at(items.push(item), t, i, j),
{
    lemma_fields_push(items, item, items.len() as int, t, i, k);
    reveal(fields_before);
    reveal(fields_at);
    reveal(field_at);
    assert(items.push(item).last() == item);
    assert(place(k));
    assert(fields_before(items.push(item), items.push(item).len() - 1, t, i, k));
}

proof fn lemma_fields_end(items: Seq<FieldView>, t: Seq<TokenView>, i: int, j: int)
    requires
        fields_before(items, items.len() as int, t, i, j),
    ensures
        fields_at(items, t, i, j),
{
    reveal(fields_before);
    reveal(fields_at);
}

proof fn lemma_no_fields(t: Seq<TokenView>, i: int)
    ensures
        fields_before(seq![], 0, t, i, i),
{
    reveal(fields_before);
}

proof fn lemma_params_push(
    items: Seq<ParamView>,
    item: ParamView,
    n: int,
    t: Seq<TokenView>,
    i: int,
    j: int,
)
    requires
        n <= items.len(),
        params_before(items, n, t, i, j),
    ensures
        params_before(items.push(item), n, t, i, j),
    decreases n,
{
    reveal(params_before);
    reveal(param_at);
    if n > 0 {
        let k = choose|k: int| #[trigger]
            place(k) && params_before(items, n - 1, t, i, k) && param_at(items[n - 1], t, k, j - 1);
        lemma_params_push(items, item, n - 1, t, i, k);
        assert(items.push(item)[n - 1] == items[n - 1]);
        assert(place(k));
    }
}

proof fn lemma_params_more(
    items: Seq<ParamView>,
    item: ParamView,
    t: Seq<TokenView>,
    i: int,
    k: int,
    j: int,
)
    requires
        params_before(items, items.len() as int, t, i, k),
        param_at(item, t, k, j),
        kind_at(t, j, TokenKind::Comma),
    ensures
        params_before(items.push(item), items.push(item).len() as int, t, i, j + 1),
{
    lemma_params_push(items, item, items.len() as int, t, i, k);
    reveal(params_before);
    reveal(param_at);
    assert(items.push(item)[items.len() as int] == item);
    assert(place(k));
}

proof fn lemma_params_last(
    items: Seq<ParamView>,
    item: ParamView,
    t: Seq<TokenView>,
    i: int,
    k: int,
    j: int,
)
    requires
        params_before(items, items.len() as int, t, i, k),
        param_at(item, t, k, j),
    ensures
        params_at(items.push(item), t, i, j),
{
    lemma_params_push(items, item, items.len() as int, t, i, k);
    reveal(params_before);
    reveal(params_at);
    reveal(param_at);
    assert(items.push(item).last() == item);
    assert(place(k));
    assert(params_before(items.push(item), items.push(item).len() - 1, t, i, k));
}

proof fn lemma_params_end(items: Seq<ParamView>, t: Seq<TokenView>, i: int, j: int)
    requires
        params_before(items, items.len() as int, t, i, j),
    ensures
        params_at(items, t, i, j),
{
    reveal(params_before);
    reveal(params_at);
}

proof fn lemma_no_params(t: Seq<TokenView>, i: int)
    ensures
        params_before(seq![], 0, t, i, i),
{
    reveal(params_before);
}

#[verifier::spinoff_prover]
proof fn lemma_logical(s: ParseState)
    requires
        is_within(s),
    ensures
        expr_read(s, s.logical(), 1),
    decreases s.left(), 22nat,
{
    reveal(ParseState::logical);
    reveal(ParseState::logical_rest);
    reveal(ParseState::logic_not);
    let first = s.logic_not();
    lemma_logic_not(s);
    if let Ok(left) = first.result {
        lemma_past(s, first.state);
        lemma_logical_rest(first.state, s.index, left);
    }
}

#[verifier::spinoff_prover]
proof fn lemma_logical_rest(s: ParseState, start: int, left: ExprView)
    requires
        is_within(s),
        strength(left) >= 1,
    ensures
        rest_read(s, s.logical_rest(left), start, left, 1),
    decreases s.left(), 0nat,
{
    reveal(ParseState::logical_rest);
    reveal(ParseState::logic_not);
    if s.at(TokenKind::And) || s.at(TokenKind::Or) {
        let next = s.taken().logic_not();
        lemma_logic_not(s.taken());
        if let Ok(right) = next.result {
            lemma_past(s, next.state);
            let op = s.peek()->0;
            let e = ExprView::Binary { left: Box::new(left), op, right: Box::new(right) };
            if is_clean(s, next.state) && expr_at(left, s.tokens, start, s.index) {
                mk_binary(left, op, right, s.tokens, start, s.index, next.state.index);
            }
            lemma_logical_rest(next.state, start, e);
        }
    }
}

#[verifier::spinoff_prover]
proof fn lemma_relational(s: ParseState)
    requires
        is_within(s),
    ensures
        expr_read(s, s.relational(), 3),
    decreases s.left(), 18nat,
{
    reveal(ParseState::relational);
    reveal(ParseState::relational_rest);
    reveal(ParseState::bitwise);
    let first = s.bitwise();
    lemma_bitwise(s);
    if let Ok(left) = first.result {
        lemma_past(s, first.state);
        lemma_relational_rest(first.state, s.index, left);
    }
}

#[verifier::spinoff_prover]
proof fn lemma_relational_rest(s: ParseState, start: int, left: ExprView)
    requires
        is_within(s),
        strength(left) >= 3,
    ensures
        rest_read(s, s.relational_rest(left), start, left, 3),
    decreases s.left(), 0nat,
{
    reveal(ParseState::relational_rest);
    reveal(ParseState::bitwise);
    if s.at(TokenKind::LAngle) || s.at(TokenKind::LessEq) || s.at(TokenKind::EqEq) || s.at(TokenKind::NotEq) || s.at(TokenKind::GreaterEq) || s.at(TokenKind::RAngle) {
        let next = s.taken().bitwise();
        lemma_bitwise(s.taken());
        if let Ok(right) = next.result {
            lemma_past(s, next.state);
            let op = s.peek()->0;
            let e = ExprView::Binary { left: Box::new(left), op, right: Box::new(right) };
            if is_clean(s, next.state) && expr_at(left, s.tokens, start, s.index) {
                mk_binary(left, op, right, s.tokens, start, s.index, next.state.index);
            }
            lemma_relational_rest(next.state, start, e);
        }
    }
}

#[verifier::spinoff_prover]
proof fn lemma_bitwise(s: ParseState)
    requires
        is_within(s),
    ensures
        expr_read(s, s.bitwise(), 4),
    decreases s.left(), 16nat,
{
    reveal(ParseState::bitwise);
    reveal(ParseState::bitwise_rest);
    reveal(ParseState::shift);
    let first = s.shift();
    lemma_shift(s);
    if let Ok(left) = first.result {
        lemma_past(s, first.state);
        lemma_bitwise_rest(first.state, s.index, left);
    }
}

#[verifier::spinoff_prover]
proof fn lemma_bitwise_rest(s: ParseState, start: int, left: ExprView)
    requires
        is_within(s),
        strength(left) >= 4,
    ensures
        rest_read(s, s.bitwise_rest(left), start, left, 4),
    decreases s.left(), 0nat,
{
    reveal(ParseState::bitwise_rest);
    reveal(ParseState::shift);
    if s.at(TokenKind::Ampersand) || s.at(TokenKind::Caret) || s.at(TokenKind::Pipe) {
        let next = s.taken().shift();
        lemma_shift(s.taken());
        if let Ok(right) = next.result {
            lemma_past(s, next.state);
            let op = s.peek()->0;
            let e = ExprView::Binary { left: Box::new(left), op, right: Box::new(right) };
            if is_clean(s, next.state) && expr_at(left, s.tokens, start, s.index) {
                mk_binary(left, op, right, s.tokens, start, s.index, next.state.index);
            }
            lemma_bitwise_rest(next.state, start, e);
        }
    }
}

#[verifier::spinoff_prover]
proof fn lemma_shift(s: ParseState)
    requires
        is_within(s),
    ensures
        expr_read(s, s.shift(), 5),
    decreases s.left(), 14nat,
{
    reveal(ParseState::shift);
    reveal(ParseState::shift_rest);
    reveal(ParseState::sum);
    let first = s.sum();
    lemma_sum(s);
    if let Ok(left) = first.result {
        lemma_past(s, first.state);
        lemma_shift_rest(first.state, s.index, left);
    }
}

#[verifier::spinoff_prover]
proof fn lemma_shift_rest(s: ParseState, start: int, left: ExprView)
    requires
        is_within(s),
        strength(left) >= 5,
    ensures
        rest_read(s, s.shift_rest(left), start, left, 5),
    decreases s.left(), 0nat,
{
    reveal(ParseState::shift_rest);
    reveal(ParseState::sum);
    if s.at(TokenKind::ShiftLeft) || s.at(TokenKind::ShiftRight) {
        let next = s.taken().sum();
        lemma_sum(s.taken());
        if let Ok(right) = next.result {
            lemma_past(s, next.state);
            let op = s.peek()->0;
            let e = ExprView::Binary { left: Box::new(left), op, right: Box::new(right) };
            if is_clean(s, next.state) && expr_at(left, s.tokens, start, s.index) {
                mk_binary(left, op, right, s.tokens, start, s.index, next.state.index);
            }
            lemma_shift_rest(next.state, start, e);
        }
    }
}

#[verifier::spinoff_prover]
proof fn lemma_sum(s: ParseState)
    requires
        is_within(s),
    ensures
        expr_read(s, s.sum(), 6),
    decreases s.left(), 12nat,
{
    reveal(ParseState::sum);
    reveal(ParseState::sum_rest);
    reveal(ParseState::factor);
    let first = s.factor();
    lemma_factor(s);
    if let Ok(left) = first.result {
        lemma_past(s, first.state);
        lemma_sum_rest(first.state, s.index, left);
    }
}

#[verifier::spinoff_prover]
proof fn lemma_sum_rest(s: ParseState, start: int, left: ExprView)
    requires
        is_within(s),
        strength(left) >= 6,
    ensures
        rest_read(s, s.sum_rest(left), start, left, 6),
    decreases s.left(), 0nat,
{
    reveal(ParseState::sum_rest);
    reveal(ParseState::factor);
    if s.at_sum_op() {
        let next = s.taken().factor();
        lemma_factor(s.taken());
        if let Ok(right) = next.result {
            lemma_past(s, next.state);
            let op = s.peek()->0;
            let e = ExprView::Binary { left: Box::new(left), op, right: Box::new(right) };
            if is_clean(s, next.state) && expr_at(left, s.tokens, start, s.index) {
                mk_binary(left, op, right, s.tokens, start, s.index, next.state.index);
            }
            lemma_sum_rest(next.state, start, e);
        }
    }
}

#[verifier::spinoff_prover]
proof fn lemma_factor(s: ParseState)
    requires
        is_within(s),
    ensures
        expr_read(s, s.factor(), 7),
    decreases s.left(), 10nat,
{
    reveal(ParseState::factor);
    reveal(ParseState::factor_rest);
    reveal(ParseState::cast);
    let first = s.cast();
    lemma_cast(s);
    if let Ok(left) = first.result {
        lemma_past(s, first.state);
        lemma_factor_rest(first.state, s.index, left);
    }
}

#[verifier::spinoff_prover]
proof fn lemma_factor_rest(s: ParseState, start: int, left: ExprView)
    requires
        is_within(s),
        strength(left) >= 7,
    ensures
        rest_read(s, s.factor_rest(left), start, left, 7),
    decreases s.left(), 0nat,
{
    reveal(ParseState::factor_rest);
    reveal(ParseState::cast);
    if s.at(TokenKind::Star) || s.at(TokenKind::Slash) || s.at(TokenKind::Percent) {
        let next = s.taken().cast();
        lemma_cast(s.taken());
        if let Ok(right) = next.result {
            lemma_past(s, next.state);
            let op = s.peek()->0;
            let e = ExprView::Binary { left: Box::new(left), op, right: Box::new(right) };
            if is_clean(s, next.state) && expr_at(left, s.tokens, start, s.index) {
                mk_binary(left, op, right, s.tokens, start, s.index, next.state.index);
            }
            lemma_factor_rest(next.state, start, e);
        }
    }
}

#[verifier::spinoff_prover]
proof fn lemma_expr_list(s: ParseState, start: int, items: Seq<ExprView>)
    requires
        is_within(s),
    ensures
        s.expr_list(items).result is Ok,
        goes(s, s.expr_list(items).state),
        is_clean(s, s.expr_list(items).state) && exprs_before(
            items,
            items.len() as int,
            s.tokens,
            start,
            s.index,
        ) ==> exprs_at(
            s.expr_list(items).result->Ok_0,
            s.tokens,
            start,
            s.expr_list(items).state.index,
        ),
    decreases s.left(), 24nat,
{
    reveal(ParseState::expr_list);
    reveal(ParseState::logical);
    let item = s.logical();
    lemma_logical(s);
    let had = exprs_before(items, items.len() as int, s.tokens, start, s.index);
    match item.result {
        Err(_) => {
            if had {
                lemma_exprs_end(items, s.tokens, start, s.index);
            }
        },
        Ok(value) => {
            lemma_past(s, item.state);
            let next = item.state;
            if next.at(TokenKind::Comma) {
                if had && is_clean(s, next) {
                    lemma_exprs_more(items, value, s.tokens, start, s.index, next.index);
                }
                lemma_expr_list(next.taken(), start, items.push(value));
            } else if had && is_clean(s, next) {
                lemma_exprs_last(items, value, s.tokens, start, s.index, next.index);
            }
        },
    }
}

#[verifier::spinoff_prover]
proof fn lemma_arg_list(s: ParseState, start: int, items: Seq<ArgView>)
    requires
        is_within(s),
    ensures
        s.arg_list(items).result is Ok,
        goes(s, s.arg_list(items).state),
        is_clean(s, s.arg_list(items).state) && args_before(
            items,
            items.len() as int,
            s.tokens,
            start,
            s.index,
        ) ==> args_at(
            s.arg_list(items).result->Ok_0,
            s.tokens,
            start,
            s.arg_list(items).state.index,
        ),
    decreases s.left(), 26nat,
{
    reveal(ParseState::arg_list);
    reveal(ParseState::arg);
    let item = s.arg();
    lemma_arg(s);
    let had = args_before(items, items.len() as int, s.tokens, start, s.index);
    match item.result {
        Err(_) => {
            if had {
                lemma_args_end(items, s.tokens, start, s.index);
            }
        },
        Ok(value) => {
            lemma_past(s, item.state);
            let next = item.state;
            if next.at(TokenKind::Comma) {
                if had && is_clean(s, next) {
                    lemma_args_more(items, value, s.tokens, start, s.index, next.index);
                }
                lemma_arg_list(next.taken(), start, items.push(value));
            } else if had && is_clean(s, next) {
                lemma_args_last(items, value, s.tokens, start, s.index, next.index);
            }
        },
    }
}

#[verifier::spinoff_prover]
proof fn lemma_type_list(s: ParseState, start: int, items: Seq<TypeView>)
    requires
        is_within(s),
    ensures
        s.type_list(items).result is Ok,
        goes(s, s.type_list(items).state),
        is_clean(s, s.type_list(items).state) && taipes_before(
            items,
            items.len() as int,
            s.tokens,
            start,
            s.index,
        ) ==> taipes_at(
            s.type_list(items).result->Ok_0,
            s.tokens,
            start,
            s.type_list(items).state.index,
        ),
    decreases s.left(), 4nat,
{
    reveal(ParseState::type_list);
    reveal(ParseState::taipe);
    let item = s.taipe();
    lemma_taipe(s);
    let had = taipes_before(items, items.len() as int, s.tokens, start, s.index);
    match item.result {
        Err(_) => {
            if had {
                lemma_taipes_end(items, s.tokens, start, s.index);
            }
        },
        Ok(value) => {
            lemma_past(s, item.state);
            let next = item.state;
            if next.at(TokenKind::Comma) {
                if had && is_clean(s, next) {
                    lemma_taipes_more(items, value, s.tokens, start, s.index, next.index);
                }
                lemma_type_list(next.taken(), start, items.push(value));
            } else if had && is_clean(s, next) {
                lemma_taipes_last(items, value, s.tokens, start, s.index, next.index);
            }
        },
    }
}

#[verifier::spinoff_prover]
proof fn lemma_field_list(s: ParseState, start: int, items: Seq<FieldView>)
    requires
        is_within(s),
    ensures
        s.field_list(items).result is Ok,
        goes(s, s.field_list(items).state),
        is_clean(s, s.field_list(items).state) && fields_before(
            items,
            items.len() as int,
            s.tokens,
            start,
            s.index,
        ) ==> fields_at(
            s.field_list(items).result->Ok_0,
            s.tokens,
            start,
            s.field_list(items).state.index,
        ),
    decreases s.left(), 8nat,
{
    reveal(ParseState::field_list);
    reveal(ParseState::field);
    let item = s.field();
    lemma_field(s);
    let had = fields_before(items, items.len() as int, s.tokens, start, s.index);
    match item.result {
        Err(_) => {
            if had {
                lemma_fields_end(items, s.tokens, start, s.index);
            }
        },
        Ok(value) => {
            lemma_past(s, item.state);
            let next = item.state;
            if next.at(TokenKind::Comma) {
                if had && is_clean(s, next) {
                    lemma_fields_more(items, value, s.tokens, start, s.index, next.index);
                }
                lemma_field_list(next.taken(), start, items.push(value));
            } else if had && is_clean(s, next) {
                lemma_fields_last(items, value, s.tokens, start, s.index, next.index);
            }
        },
    }
}

#[verifier::spinoff_prover]
proof fn lemma_param_list(s: ParseState, start: int, items: Seq<ParamView>)
    requires
        is_within(s),
    ensures
        s.param_list(items).result is Ok,
        goes(s, s.param_list(items).state),
        is_clean(s, s.param_list(items).state) && params_before(
            items,
            items.len() as int,
            s.tokens,
            start,
            s.index,
        ) ==> params_at(
            s.param_list(items).result->Ok_0,
            s.tokens,
            start,
            s.param_list(items).state.index,
        ),
    decreases s.left(), 8nat,
{
    reveal(ParseState::param_list);
    reveal(ParseState::param);
    let item = s.param();
    lemma_param(s);
    let had = params_before(items, items.len() as int, s.tokens, start, s.index);
    match item.result {
        Err(_) => {
            if had {
                lemma_params_end(items, s.tokens, start, s.index);
            }
        },
        Ok(value) => {
            lemma_past(s, item.state);
            let next = item.state;
            if next.at(TokenKind::Comma) {
                if had && is_clean(s, next) {
                    lemma_params_more(items, value, s.tokens, start, s.index, next.index);
                }
                lemma_param_list(next.taken(), start, items.push(value));
            } else if had && is_clean(s, next) {
                lemma_params_last(items, value, s.tokens, start, s.index, next.index);
            }
        },
    }
}

#[verifier::spinoff_prover]
proof fn lemma_logic_not(s: ParseState)
    requires
        is_within(s),
    ensures
        expr_read(s, s.logic_not(), 2),
    decreases s.left(), 20nat,
{
    reveal(ParseState::logic_not);
    reveal(ParseState::relational);
    if s.at(TokenKind::Not) {
        let inner = s.taken().logic_not();
        lemma_logic_not(s.taken());
        if let Ok(expr) = inner.result {
            if is_clean(s, inner.state) {
                mk_unary(s.peek()->0, expr, s.tokens, s.index, inner.state.index);
            }
        }
    } else {
        lemma_relational(s);
    }
}

#[verifier::spinoff_prover]
proof fn lemma_cast(s: ParseState)
    requires
        is_within(s),
    ensures
        expr_read(s, s.cast(), 8),
    decreases s.left(), 8nat,
{
    reveal(ParseState::cast);
    reveal(ParseState::cast_rest);
    reveal(ParseState::unary);
    let first = s.unary();
    lemma_unary(s);
    if let Ok(expr) = first.result {
        lemma_past(s, first.state);
        lemma_cast_rest(first.state, s.index, expr);
    }
}

#[verifier::spinoff_prover]
proof fn lemma_cast_rest(s: ParseState, start: int, expr: ExprView)
    requires
        is_within(s),
        strength(expr) >= 8,
    ensures
        rest_read(s, s.cast_rest(expr), start, expr, 8),
    decreases s.left(), 0nat,
{
    reveal(ParseState::cast_rest);
    reveal(ParseState::taipe);
    if s.at(TokenKind::As) {
        let next = s.taken().taipe();
        lemma_taipe(s.taken());
        if let Ok(taipe) = next.result {
            lemma_past(s, next.state);
            let e = ExprView::Cast { expr: Box::new(expr), taipe: Box::new(taipe) };
            if is_clean(s, next.state) && expr_at(expr, s.tokens, start, s.index) {
                mk_cast(expr, taipe, s.tokens, start, s.index, next.state.index);
            }
            lemma_cast_rest(next.state, start, e);
        }
    }
}

#[verifier::spinoff_prover]
proof fn lemma_unary(s: ParseState)
    requires
        is_within(s),
    ensures
        expr_read(s, s.unary(), 9),
    decreases s.left(), 7nat,
{
    reveal(ParseState::unary);
    reveal(ParseState::prefixed);
    if s.at_measure() {
        let inner = s.taken().prefixed();
        lemma_prefixed(s.taken());
        if let Ok(expr) = inner.result {
            if is_clean(s, inner.state) {
                mk_unary(s.peek()->0, expr, s.tokens, s.index, inner.state.index);
            }
        }
    } else {
        lemma_prefixed(s);
    }
}

#[verifier::spinoff_prover]
proof fn lemma_prefixed(s: ParseState)
    requires
        is_within(s),
    ensures
        expr_read(s, s.prefixed(), 10),
    decreases s.left(), 6nat,
{
    reveal(ParseState::prefixed);
    reveal(ParseState::postfix);
    if s.at_prefix() {
        let inner = s.taken().prefixed();
        lemma_prefixed(s.taken());
        if let Ok(expr) = inner.result {
            if is_clean(s, inner.state) {
                mk_unary(s.peek()->0, expr, s.tokens, s.index, inner.state.index);
            }
        }
    } else {
        lemma_postfix(s);
    }
}

#[verifier::spinoff_prover]
proof fn lemma_arg(s: ParseState)
    requires
        is_within(s),
    ensures
        arg_read(s, s.arg()),
    decreases s.left(), 24nat,
{
    reveal(ParseState::arg);
    reveal(ParseState::logical);
    if s.at(TokenKind::Ident) && s.peek_at(1) is Some && s.peek_at(1)->0.kind == TokenKind::Colon {
        let next = s.taken().taken();
        let inner = next.logical();
        lemma_logical(next);
        if let Ok(expr) = inner.result {
            if is_clean(s, inner.state) {
                mk_named_arg(s.peek()->0, expr, s.tokens, s.index, inner.state.index);
            }
        }
    } else {
        let inner = s.logical();
        lemma_logical(s);
        if let Ok(expr) = inner.result {
            if is_clean(s, inner.state) {
                mk_arg(expr, s.tokens, s.index, inner.state.index);
            }
        }
    }
}

#[verifier::spinoff_prover]
proof fn lemma_postfix(s: ParseState)
    requires
        is_within(s),
    ensures
        expr_read(s, s.postfix(), 11),
    decreases s.left(), 4nat,
{
    reveal(ParseState::postfix);
    reveal(ParseState::postfix_rest);
    reveal(ParseState::primary);
    let first = s.primary();
    lemma_primary(s);
    if let Ok(expr) = first.result {
        lemma_past(s, first.state);
        lemma_postfix_rest(first.state, s.index, expr);
    }
}

#[verifier::spinoff_prover]
proof fn lemma_postfix_rest(s: ParseState, start: int, expr: ExprView)
    requires
        is_within(s),
        strength(expr) >= 11,
    ensures
        rest_read(s, s.postfix_rest(expr), start, expr, 11),
    decreases s.left(), 0nat,
{
    reveal(ParseState::postfix_rest);
    reveal(ParseState::arg_list);
    reveal(ParseState::expr_list);
    let had = expr_at(expr, s.tokens, start, s.index);
    if s.at(TokenKind::Dot) {
        let next = s.taken();
        if next.at(TokenKind::Ident) || next.at(TokenKind::IntLit) {
            let name = next.peek()->0;
            if had {
                mk_member(expr, name, s.tokens, start, s.index);
            }
            lemma_postfix_rest(
                next.taken(),
                start,
                ExprView::Member { expr: Box::new(expr), name },
            );
        }
    } else if s.at(TokenKind::LParen) {
        let next = s.taken();
        let args = next.arg_list(seq![]);
        lemma_no_args(s.tokens, next.index);
        lemma_arg_list(next, next.index, seq![]);
        lemma_past(s, args.state);
        let end = args.state.expected(TokenKind::RParen);
        lemma_past(s, end.state);
        let e = ExprView::Call {
            line_info: span_from(expr.span(), end.result->Ok_0.line_info),
            expr: Box::new(expr),
            args: args.result->Ok_0,
        };
        if had && is_clean(s, end.state) {
            mk_call(expr, args.result->Ok_0, s.tokens, start, s.index, args.state.index);
        }
        lemma_postfix_rest(end.state, start, e);
    } else if s.at(TokenKind::LBrack) {
        let next = s.taken();
        let items = next.expr_list(seq![]);
        lemma_no_exprs(s.tokens, next.index);
        lemma_expr_list(next, next.index, seq![]);
        lemma_past(s, items.state);
        let end = items.state.expected(TokenKind::RBrack);
        lemma_past(s, end.state);
        let e = ExprView::Index {
            line_info: span_from(expr.span(), end.result->Ok_0.line_info),
            expr: Box::new(expr),
            items: items.result->Ok_0,
        };
        if had && is_clean(s, end.state) {
            mk_index(expr, items.result->Ok_0, s.tokens, start, s.index, items.state.index);
        }
        lemma_postfix_rest(end.state, start, e);
    }
}

#[verifier::spinoff_prover]
proof fn lemma_primary(s: ParseState)
    requires
        is_within(s),
    ensures
        expr_read(s, s.primary(), 12),
    decreases s.left(), 2nat,
{
    reveal(ParseState::primary);
    reveal(ParseState::tuple);
    reveal(ParseState::logical);
    reveal(ParseState::expr_list);
    if s.peek() is Some && is_atom(s.peek()->0.kind) {
        mk_literal(s.peek()->0, s.tokens, s.index);
    } else if s.at(TokenKind::LParen) {
        if s.peek_at(1) is Some && s.peek_at(1)->0.kind == TokenKind::RParen {
            lemma_tuple(s);
        } else {
            let inner = s.taken().logical();
            lemma_logical(s.taken());
            if let Ok(expr) = inner.result {
                if inner.state.at(TokenKind::Comma) {
                    lemma_tuple(ParseState { errors: inner.state.errors, ..s });
                } else {
                    let end = inner.state.expected(TokenKind::RParen);
                    if is_clean(s, end.state) {
                        mk_paren(expr, s.tokens, s.index, inner.state.index);
                    }
                }
            }
        }
    } else if s.at(TokenKind::LBrack) {
        let next = s.taken();
        let items = next.expr_list(seq![]);
        lemma_no_exprs(s.tokens, next.index);
        lemma_expr_list(next, next.index, seq![]);
        let end = items.state.expected(TokenKind::RBrack);
        if is_clean(s, end.state) {
            mk_array(items.result->Ok_0, s.tokens, s.index, items.state.index);
        }
    }
}

#[verifier::spinoff_prover]
proof fn lemma_tuple(s: ParseState)
    requires
        is_within(s),
    ensures
        expr_read(s, s.tuple(), 12),
    decreases s.left(), 0nat,
{
    reveal(ParseState::tuple);
    reveal(ParseState::expr_list);
    if s.at(TokenKind::LParen) {
        let next = s.taken();
        let exprs = next.expr_list(seq![]);
        lemma_no_exprs(s.tokens, next.index);
        lemma_expr_list(next, next.index, seq![]);
        let end = exprs.state.expected(TokenKind::RParen);
        if is_clean(s, end.state) {
            mk_tuple(exprs.result->Ok_0, s.tokens, s.index, exprs.state.index);
        }
    }
}

#[verifier::spinoff_prover]
proof fn lemma_type_tuple(s: ParseState)
    requires
        is_within(s),
    ensures
        taipe_read(s, s.type_tuple()),
    decreases s.left(), 0nat,
{
    reveal(ParseState::type_tuple);
    reveal(ParseState::type_list);
    if s.at(TokenKind::LParen) {
        let next = s.taken();
        let types = next.type_list(seq![]);
        lemma_no_taipes(s.tokens, next.index);
        lemma_type_list(next, next.index, seq![]);
        let end = types.state.expected(TokenKind::RParen);
        if is_clean(s, end.state) {
            mk_tuple_type(types.result->Ok_0, s.tokens, s.index, types.state.index);
        }
    }
}

#[verifier::spinoff_prover]
proof fn lemma_path_more(items: Seq<TokenView>, item: TokenView, t: Seq<TokenView>, i: int, j: int)
    requires
        path_at(items, t, i, j),
        kind_at(t, j, TokenKind::Dot),
        token_at(t, j + 1, item),
    ensures
        path_at(items.push(item), t, i, j + 2),
{
    let all = items.push(item);
    assert(all.len() == items.len() + 1);
    assert forall|m: int| 0 <= m < all.len() implies token_at(t, i + 2 * m, #[trigger] all[m]) && (m
        > 0 ==> kind_at(t, i + 2 * m - 1, TokenKind::Dot)) by {
        if m < items.len() {
            assert(all[m] == items[m]);
            assert(token_at(t, i + 2 * m, items[m]));
        } else {
            assert(all[m] == item);
            assert(i + 2 * m == j + 1);
        }
    }
    assert(j + 2 == i + 2 * all.len() - 1);
}

#[verifier::spinoff_prover]
proof fn lemma_path_rest(s: ParseState, start: int, items: Seq<TokenView>)
    requires
        is_within(s),
        path_at(items, s.tokens, start, s.index),
        forall|m: int| 0 <= m < items.len() ==> (#[trigger] items[m]).kind == TokenKind::Ident,
    ensures
        s.path_rest(items).result matches Ok(all) ==> {
            let r = s.path_rest(items).state;
            &&& goes(s, r)
            &&& path_at(all, s.tokens, start, r.index)
            &&& forall|m: int| 0 <= m < all.len() ==> (#[trigger] all[m]).kind == TokenKind::Ident
        },
    decreases s.left(), 0nat,
{
    reveal(ParseState::path_rest);
    if s.at(TokenKind::Dot) {
        let next = s.taken();
        if next.at(TokenKind::Ident) {
            let tok = next.peek()->0;
            lemma_past(s, next.taken());
            lemma_path_more(items, tok, s.tokens, start, s.index);
            lemma_path_rest(next.taken(), start, items.push(tok));
        }
    }
}

#[verifier::spinoff_prover]
proof fn lemma_taipe(s: ParseState)
    requires
        is_within(s),
    ensures
        taipe_read(s, s.taipe()),
    decreases s.left(), 2nat,
{
    reveal(ParseState::taipe);
    reveal(ParseState::path_rest);
    reveal(ParseState::function_type);
    reveal(ParseState::bracket_type);
    reveal(ParseState::type_tuple);
    if s.at(TokenKind::Ident) {
        let first = seq![s.peek()->0];
        lemma_path_rest(s.taken(), s.index, first);
        let path = s.taken().path_rest(first);
        if let Ok(items) = path.result {
            mk_path(items, s.tokens, s.index, path.state.index);
        }
    } else if s.at(TokenKind::Fun) {
        lemma_function_type(s);
    } else if s.at(TokenKind::Const) {
        if !s.taken().at(TokenKind::Const) {
            let inner = s.taken().taipe();
            lemma_taipe(s.taken());
            if let Ok(taipe) = inner.result {
                if is_clean(s, inner.state) {
                    mk_const(s.peek()->0, taipe, s.tokens, s.index, inner.state.index);
                }
            }
        }
    } else if s.at(TokenKind::Star) {
        let inner = s.taken().taipe();
        lemma_taipe(s.taken());
        if let Ok(taipe) = inner.result {
            if is_clean(s, inner.state) {
                mk_pointer(s.peek()->0, taipe, s.tokens, s.index, inner.state.index);
            }
        }
    } else if s.at(TokenKind::LBrack) {
        lemma_bracket_type(s);
    } else if s.at(TokenKind::LParen) {
        if s.peek_at(1) is Some && s.peek_at(1)->0.kind == TokenKind::RParen {
            lemma_type_tuple(s);
        } else {
            let inner = s.taken().taipe();
            lemma_taipe(s.taken());
            if let Ok(taipe) = inner.result {
                if inner.state.at(TokenKind::Comma) {
                    lemma_type_tuple(ParseState { errors: inner.state.errors, ..s });
                } else {
                    let end = inner.state.expected(TokenKind::RParen);
                    if is_clean(s, end.state) {
                        mk_paren_type(taipe, s.tokens, s.index, inner.state.index);
                    }
                }
            }
        }
    } else if s.at(TokenKind::Void) || s.at(TokenKind::Noreturn) || s.at(TokenKind::Typedef) {
        mk_literal_type(s.peek()->0, s.tokens, s.index);
    }
}

#[verifier::spinoff_prover]
proof fn lemma_function_type(s: ParseState)
    requires
        is_within(s),
    ensures
        taipe_read(s, s.function_type()),
    decreases s.left(), 0nat,
{
    reveal(ParseState::function_type);
    reveal(ParseState::type_list);
    reveal(ParseState::taipe);
    if s.at(TokenKind::Fun) {
        let start = s.taken();
        if start.at(TokenKind::LParen) {
            let open = start.taken();
            let params = open.type_list(seq![]);
            lemma_no_taipes(s.tokens, open.index);
            lemma_type_list(open, open.index, seq![]);
            let close = params.state.expected(TokenKind::RParen);
            let arrow = close.state.expected(TokenKind::Arrow);
            if arrow.result is Ok {
                lemma_past(s, arrow.state);
                let ret = arrow.state.taipe();
                lemma_taipe(arrow.state);
                if let Ok(taipe) = ret.result {
                    if is_clean(s, ret.state) {
                        mk_function_type(
                            params.result->Ok_0,
                            taipe,
                            s.tokens,
                            s.index,
                            params.state.index,
                            ret.state.index,
                        );
                    }
                }
            }
        }
    }
}

#[verifier::spinoff_prover]
proof fn lemma_bracket_type(s: ParseState)
    requires
        is_within(s),
    ensures
        taipe_read(s, s.bracket_type()),
    decreases s.left(), 0nat,
{
    reveal(ParseState::bracket_type);
    reveal(ParseState::array_type_rest);
    reveal(ParseState::taipe);
    reveal(ParseState::logical);
    if s.at(TokenKind::LBrack) {
        let start = s.taken();
        if start.at(TokenKind::RBrack) {
            let next = start.taken();
            let inner = next.taipe();
            lemma_taipe(next);
            if let Ok(taipe) = inner.result {
                if is_clean(s, inner.state) {
                    mk_fat(taipe, s.tokens, s.index, inner.state.index);
                }
            }
        } else if start.at(TokenKind::Underscore) {
            let next = start.taken();
            let close = next.expected(TokenKind::RBrack);
            let inner = close.state.taipe();
            lemma_taipe(close.state);
            if let Ok(taipe) = inner.result {
                if is_clean(s, inner.state) {
                    mk_open_array(taipe, s.tokens, s.index, inner.state.index);
                }
            }
        } else {
            let length = start.logical();
            lemma_logical(start);
            if let Ok(expr) = length.result {
                lemma_past(s, length.state);
                let close = length.state.expected(TokenKind::RBrack);
                let inner = close.state.taipe();
                lemma_taipe(close.state);
                if let Ok(taipe) = inner.result {
                    if is_clean(s, inner.state) {
                        mk_array_type(
                            expr,
                            taipe,
                            s.tokens,
                            s.index,
                            length.state.index,
                            inner.state.index,
                        );
                    }
                }
            }
        }
    }
}

#[verifier::spinoff_prover]
proof fn lemma_assignment(s: ParseState)
    requires
        is_within(s),
    ensures
        expr_read(s, s.assignment(), 0),
    decreases s.left(), 26nat,
{
    reveal(ParseState::assignment);
    reveal(ParseState::expr_list);
    let lhs = s.expr_list(seq![]);
    lemma_no_exprs(s.tokens, s.index);
    lemma_expr_list(s, s.index, seq![]);
    if lhs.result->Ok_0.len() > 0 {
        lemma_list_moves(s, seq![]);
        lemma_past(s, lhs.state);
        if lhs.state.at(TokenKind::Equal) {
            let next = lhs.state.taken();
            let rhs = next.expr_list(seq![]);
            lemma_no_exprs(s.tokens, next.index);
            lemma_expr_list(next, next.index, seq![]);
            if rhs.result->Ok_0.len() > 0 && is_clean(s, rhs.state) {
                mk_assign(
                    lhs.result->Ok_0,
                    lhs.state.peek()->0,
                    rhs.result->Ok_0,
                    s.tokens,
                    s.index,
                    lhs.state.index,
                    rhs.state.index,
                );
            }
        }
    }
}

#[verifier::spinoff_prover]
proof fn lemma_list_moves(s: ParseState, items: Seq<ExprView>)
    requires
        is_within(s),
        s.expr_list(items).result->Ok_0.len() > items.len(),
    ensures
        s.index < s.expr_list(items).state.index,
    decreases s.left(), 25nat,
{
    reveal(ParseState::expr_list);
    reveal(ParseState::logical);
    let item = s.logical();
    lemma_logical(s);
    if let Ok(value) = item.result {
        lemma_past(s, item.state);
        if item.state.at(TokenKind::Comma) {
            lemma_expr_list(item.state.taken(), s.index, items.push(value));
        }
    }
}

#[verifier::spinoff_prover]
proof fn lemma_expr_or_assign(s: ParseState)
    requires
        is_within(s),
    ensures
        expr_read(s, s.expr_or_assign(), 0),
    decreases s.left(), 28nat,
{
    reveal(ParseState::expr_or_assign);
    reveal(ParseState::assignment);
    reveal(ParseState::logical);
    lemma_assignment(s);
    lemma_logical(s);
}

#[verifier::spinoff_prover]
proof fn lemma_field(s: ParseState)
    requires
        is_within(s),
    ensures
        field_read(s, s.field()),
    decreases s.left(), 6nat,
{
    reveal(ParseState::field);
    reveal(ParseState::taipe);
    reveal(ParseState::logical);
    reveal(ParseState::compound_rest);
    if s.at(TokenKind::Ident) || s.at(TokenKind::Underscore) {
        let name = s.peek()->0;
        if s.taken().at(TokenKind::Colon) {
            let colon = s.taken().taken();
            let read = colon.taipe();
            lemma_taipe(colon);
            if let Ok(taipe) = read.result {
                lemma_past(s, read.state);
                let next = read.state;
                if next.at(TokenKind::Equal) || next.at(TokenKind::Colon) {
                    let value = next.taken().logical();
                    lemma_logical(next.taken());
                    if let Ok(expr) = value.result {
                        if is_clean(s, value.state) {
                            mk_field_value(
                                name,
                                taipe,
                                next.peek()->0,
                                expr,
                                s.tokens,
                                s.index,
                                next.index,
                                value.state.index,
                            );
                        }
                    }
                } else if is_clean(s, next) {
                    mk_field(name, taipe, s.tokens, s.index, next.index);
                }
            }
        }
    } else if s.at(TokenKind::Struct) || s.at(TokenKind::Union) {
        lemma_compound_rest(s.taken(), s.peek()->0);
    }
}

#[verifier::spinoff_prover]
proof fn lemma_compound_rest(s: ParseState, token: TokenView)
    requires
        is_within(s),
        token_at(s.tokens, s.index - 1, token),
        token.kind == TokenKind::Struct || token.kind == TokenKind::Union,
    ensures
        s.compound_rest(token).result matches Ok(field) ==> {
            let r = s.compound_rest(token).state;
            &&& moves(s, r)
            &&& field is Compound
            &&& is_clean(s, r) ==> field_at(field, s.tokens, s.index - 1, r.index)
        },
    decreases s.left(), 0nat,
{
    reveal(ParseState::compound_rest);
    reveal(ParseState::field_list);
    if s.at(TokenKind::LBrace) {
        let open = s.taken();
        let fields = open.field_list(seq![]);
        lemma_no_fields(s.tokens, open.index);
        lemma_field_list(open, open.index, seq![]);
        let end = fields.state.expected(TokenKind::RBrace);
        if is_clean(s, end.state) {
            mk_compound(token, fields.result->Ok_0, s.tokens, s.index - 1, fields.state.index);
        }
    }
}

#[verifier::spinoff_prover]
proof fn lemma_param(s: ParseState)
    requires
        is_within(s),
    ensures
        param_read(s, s.param()),
    decreases s.left(), 6nat,
{
    reveal(ParseState::param);
    reveal(ParseState::taipe);
    reveal(ParseState::logical);
    if s.at(TokenKind::Ident) {
        let name = s.peek()->0;
        if s.taken().at(TokenKind::Colon) {
            let colon = s.taken().taken();
            let read = colon.taipe();
            lemma_taipe(colon);
            if let Ok(taipe) = read.result {
                lemma_past(s, read.state);
                let next = read.state;
                if next.at(TokenKind::Colon) || next.at(TokenKind::Equal) {
                    let value = next.taken().logical();
                    lemma_logical(next.taken());
                    if let Ok(expr) = value.result {
                        if is_clean(s, value.state) {
                            mk_param_value(
                                name,
                                taipe,
                                next.peek()->0,
                                expr,
                                s.tokens,
                                s.index,
                                next.index,
                                value.state.index,
                            );
                        }
                    }
                } else if is_clean(s, next) {
                    mk_param(name, taipe, s.tokens, s.index, next.index);
                }
            }
        }
    }
}

#[verifier::spinoff_prover]
proof fn lemma_block(s: ParseState)
    requires
        is_within(s),
    ensures
        stmt_read(s, s.block()),
        s.block().result matches Ok(stmt) ==> stmt is Block,
    decreases s.left(), 30nat,
{
    reveal(ParseState::block);
    reveal(ParseState::block_rest);
    if s.at(TokenKind::LBrace) {
        let open = s.taken();
        let body = open.block_rest(seq![]);
        lemma_no_stmts(s.tokens, open.index);
        lemma_block_rest(open, open.index, seq![]);
        if let Ok(stmts) = body.result {
            let end = body.state.expected(TokenKind::RBrace);
            if is_clean(s, end.state) {
                mk_block(stmts, s.tokens, s.index, body.state.index);
            }
        }
    }
}

#[verifier::spinoff_prover]
proof fn lemma_block_rest(s: ParseState, start: int, stmts: Seq<StmtView>)
    requires
        is_within(s),
    ensures
        s.block_rest(stmts).result matches Ok(all) ==> {
            let r = s.block_rest(stmts).state;
            &&& goes(s, r)
            &&& is_clean(s, r) && stmts_at(
                stmts,
                stmts.len() as int,
                s.tokens,
                start,
                s.index,
            ) ==> stmts_at(all, all.len() as int, s.tokens, start, r.index)
        },
    decreases s.left(), 50nat,
{
    reveal(ParseState::block_rest);
    reveal(ParseState::decl_or_stmt);
    if !(s.peek() is None || s.at(TokenKind::RBrace)) {
        let item = s.decl_or_stmt();
        lemma_decl_or_stmt(s);
        if let Ok(stmt) = item.result {
            lemma_past(s, item.state);
            if is_clean(s, item.state) && stmts_at(
                stmts,
                stmts.len() as int,
                s.tokens,
                start,
                s.index,
            ) {
                lemma_stmts_more(stmts, stmt, s.tokens, start, s.index, item.state.index);
            }
            lemma_block_rest(item.state, start, stmts.push(stmt));
        }
    }
}

#[verifier::spinoff_prover]
proof fn lemma_decl_or_stmt(s: ParseState)
    requires
        is_within(s),
    ensures
        stmt_read(s, s.decl_or_stmt()),
    decreases s.left(), 48nat,
{
    reveal(ParseState::decl_or_stmt);
    reveal(ParseState::decl);
    reveal(ParseState::stmt);
    let decl = s.decl();
    lemma_decl(s);
    match decl.result {
        Ok(d) => {
            if is_clean(s, decl.state) {
                mk_decl_stmt(d, s.tokens, s.index, decl.state.index);
            }
        },
        Err(_) => {
            lemma_stmt(s);
        },
    }
}

#[verifier::spinoff_prover]
proof fn lemma_stmt(s: ParseState)
    requires
        is_within(s),
    ensures
        stmt_read(s, s.stmt()),
    decreases s.left(), 40nat,
{
    reveal(ParseState::stmt);
    reveal(ParseState::if_stmt);
    reveal(ParseState::while_stmt);
    reveal(ParseState::block);
    reveal(ParseState::logical);
    reveal(ParseState::expr_or_assign);
    if s.at(TokenKind::If) {
        lemma_if_stmt(s);
    } else if s.at(TokenKind::Label) {
        lemma_while_stmt(s);
        lemma_block(s);
    } else if s.at(TokenKind::While) {
        lemma_while_stmt(s);
    } else if s.at(TokenKind::LBrace) {
        lemma_block(s);
    } else if s.at(TokenKind::Yield) {
        let read = s.taken().logical();
        lemma_logical(s.taken());
        if let Ok(expr) = read.result {
            let end = read.state.expected(TokenKind::Semicolon);
            if is_clean(s, end.state) {
                mk_yield(s.peek()->0, expr, s.tokens, s.index, read.state.index);
            }
        }
    } else if s.at(TokenKind::Continue) || s.at(TokenKind::Break) {
        let (next, label) = s.taken().label();
        let end = next.expected(TokenKind::Semicolon);
        if is_clean(s, end.state) {
            if s.at(TokenKind::Continue) {
                mk_continue(s.peek()->0, label, s.tokens, s.index, next.index);
            } else {
                mk_break(s.peek()->0, label, s.tokens, s.index, next.index);
            }
        }
    } else if s.at(TokenKind::Return) {
        let read = s.taken().logical();
        lemma_logical(s.taken());
        match read.result {
            Err(_) => {
                let end = s.taken().expected(TokenKind::Semicolon);
                if is_clean(s, end.state) {
                    mk_return(s.peek()->0, s.tokens, s.index);
                }
            },
            Ok(expr) => {
                let end = read.state.expected(TokenKind::Semicolon);
                if is_clean(s, end.state) {
                    mk_return_value(s.peek()->0, expr, s.tokens, s.index, read.state.index);
                }
            },
        }
    } else if s.at(TokenKind::Semicolon) {
        mk_nop(s.peek()->0, s.tokens, s.index);
    } else {
        let read = s.expr_or_assign();
        lemma_expr_or_assign(s);
        if let Ok(expr) = read.result {
            let end = read.state.expected(TokenKind::Semicolon);
            if is_clean(s, end.state) {
                mk_expr_stmt(expr, s.tokens, s.index, read.state.index);
            }
        }
    }
}

#[verifier::spinoff_prover]
proof fn lemma_if_stmt(s: ParseState)
    requires
        is_within(s),
    ensures
        stmt_read(s, s.if_stmt()),
    decreases s.left(), 32nat,
{
    reveal(ParseState::if_stmt);
    reveal(ParseState::logical);
    reveal(ParseState::block);
    if s.at(TokenKind::If) {
        let cond = s.taken().logical();
        lemma_logical(s.taken());
        if let Ok(expr) = cond.result {
            lemma_past(s, cond.state);
            let body = cond.state.block();
            lemma_block(cond.state);
            if let Ok(then_body) = body.result {
                lemma_past(s, body.state);
                let next = body.state;
                if next.at(TokenKind::Else) {
                    let other = next.taken().block();
                    lemma_block(next.taken());
                    if let Ok(else_body) = other.result {
                        if is_clean(s, other.state) {
                            mk_if_else(
                                expr,
                                then_body,
                                else_body,
                                s.tokens,
                                s.index,
                                cond.state.index,
                                next.index,
                                other.state.index,
                            );
                        }
                    }
                } else if is_clean(s, next) {
                    mk_if(expr, then_body, s.tokens, s.index, cond.state.index, next.index);
                }
            }
        }
    }
}

#[verifier::spinoff_prover]
proof fn lemma_while_stmt(s: ParseState)
    requires
        is_within(s),
    ensures
        stmt_read(s, s.while_stmt()),
    decreases s.left(), 32nat,
{
    reveal(ParseState::while_stmt);
    reveal(ParseState::logical);
    reveal(ParseState::block);
    let (first, label) = s.label();
    if first.at(TokenKind::While) {
        let cond = first.taken().logical();
        lemma_logical(first.taken());
        if let Ok(expr) = cond.result {
            lemma_past(s, cond.state);
            let body = cond.state.block();
            lemma_block(cond.state);
            if let Ok(then_body) = body.result {
                if is_clean(s, body.state) {
                    mk_while(
                        label,
                        expr,
                        then_body,
                        s.tokens,
                        s.index,
                        first.index,
                        cond.state.index,
                        body.state.index,
                    );
                }
            }
        }
    }
}

#[verifier::spinoff_prover]
proof fn lemma_fun(s: ParseState)
    requires
        is_within(s),
    ensures
        object_read(s, s.fun()),
    decreases s.left(), 28nat,
{
    reveal(ParseState::fun);
    reveal(ParseState::param_list);
    reveal(ParseState::taipe);
    reveal(ParseState::fun_body);
    reveal(ParseState::block);
    if s.at(TokenKind::Fun) && s.taken().at(TokenKind::LParen) {
        let token = s.peek()->0;
        let open = s.taken().taken();
        let params = open.param_list(seq![]);
        lemma_no_params(s.tokens, open.index);
        lemma_param_list(open, open.index, seq![]);
        lemma_past(s, params.state);
        let close = params.state.expected(TokenKind::RParen);
        lemma_past(s, close.state);
        let next = close.state;
        if next.at(TokenKind::Arrow) {
            let read = next.taken().taipe();
            lemma_taipe(next.taken());
            if let Ok(ret) = read.result {
                lemma_past(s, read.state);
                lemma_fun_body(
                    s,
                    read.state,
                    params.result->Ok_0,
                    Some(ret),
                    params.state.index,
                );
            }
        } else {
            lemma_fun_body(s, next, params.result->Ok_0, None, params.state.index);
        }
    }
}

#[verifier::spinoff_prover]
proof fn lemma_fun_body(
    begin: ParseState,
    s: ParseState,
    params: Seq<ParamView>,
    ret: Option<TypeView>,
    p: int,
)
    requires
        is_within(begin),
        moves(begin, s),
        begin.at(TokenKind::Fun),
    ensures
        s.fun_body(begin.peek()->0, params, ret).result matches Ok(o) ==> {
            let r = s.fun_body(begin.peek()->0, params, ret).state;
            let t = s.tokens;
            &&& moves(s, r)
            &&& (is_clean(s, r) && kind_at(t, begin.index + 1, TokenKind::LParen) && params_at(
                params,
                t,
                begin.index + 2,
                p,
            ) && kind_at(t, p, TokenKind::RParen) && match ret {
                None => s.index == p + 1,
                Some(ty) => kind_at(t, p + 1, TokenKind::Arrow) && taipe_at(ty, t, p + 2, s.index),
            }) ==> object_at(o, t, begin.index, r.index)
        },
    decreases s.left(), 32nat,
{
    reveal(ParseState::fun_body);
    reveal(ParseState::block);
    let t = s.tokens;
    let had = kind_at(t, begin.index + 1, TokenKind::LParen) && params_at(
        params,
        t,
        begin.index + 2,
        p,
    ) && kind_at(t, p, TokenKind::RParen) && match ret {
        None => s.index == p + 1,
        Some(ty) => kind_at(t, p + 1, TokenKind::Arrow) && taipe_at(ty, t, p + 2, s.index),
    };
    if s.at(TokenKind::LBrace) {
        let read = s.block();
        lemma_block(s);
        if let Ok(body) = read.result {
            if is_clean(s, read.state) && had {
                mk_fun(
                    params,
                    ret,
                    Some(body),
                    t,
                    begin.index,
                    p,
                    s.index,
                    read.state.index,
                );
            }
        }
    } else if s.at(TokenKind::Semicolon) {
        if had {
            mk_fun(params, ret, None, t, begin.index, p, s.index, s.index + 1);
        }
    }
}

#[verifier::spinoff_prover]
proof fn lemma_module(s: ParseState)
    requires
        is_within(s),
    ensures
        object_read(s, s.module()),
    decreases s.left(), 28nat,
{
    reveal(ParseState::module);
    reveal(ParseState::decls);
    if s.at(TokenKind::Module) {
        let next = s.taken();
        if next.at(TokenKind::StringLit) {
            let end = next.taken().expected(TokenKind::Semicolon);
            if is_clean(s, end.state) {
                mk_extern_module(next.peek()->0, s.tokens, s.index);
            }
        } else if next.at(TokenKind::LBrace) {
            let open = next.taken();
            let body = open.decls(seq![]);
            lemma_no_decls(s.tokens, open.index);
            lemma_decls(open, open.index, seq![]);
            if let Ok(decls) = body.result {
                let end = body.state.expected(TokenKind::RBrace);
                if is_clean(s, end.state) {
                    mk_module(decls, s.tokens, s.index, body.state.index);
                }
            }
        }
    }
}

#[verifier::spinoff_prover]
proof fn lemma_compound(s: ParseState, kind: TokenKind)
    requires
        is_within(s),
        kind == TokenKind::Struct || kind == TokenKind::Union,
    ensures
        object_read(s, s.compound(kind)),
    decreases s.left(), 28nat,
{
    reveal(ParseState::compound);
    reveal(ParseState::compound_rest);
    if s.at(kind) {
        let token = s.peek()->0;
        let read = s.taken().compound_rest(token);
        lemma_compound_rest(s.taken(), token);
        if let Ok(field) = read.result {
            if is_clean(s, read.state) {
                mk_compound_object(field, s.tokens, s.index, read.state.index);
            }
        }
    }
}

#[verifier::spinoff_prover]
proof fn lemma_object(s: ParseState)
    requires
        is_within(s),
    ensures
        object_read(s, s.object()),
    decreases s.left(), 30nat,
{
    reveal(ParseState::object);
    reveal(ParseState::module);
    reveal(ParseState::compound);
    reveal(ParseState::fun);
    reveal(ParseState::taipe);
    reveal(ParseState::logical);
    if s.at(TokenKind::Module) {
        lemma_module(s);
    } else if s.at(TokenKind::Struct) {
        lemma_compound(s, TokenKind::Struct);
    } else if s.at(TokenKind::Union) {
        lemma_compound(s, TokenKind::Union);
    } else if s.at(TokenKind::Fun) {
        lemma_fun(s);
    } else if s.at(TokenKind::Typedef) {
        let read = s.taken().taipe();
        lemma_taipe(s.taken());
        if let Ok(taipe) = read.result {
            let end = read.state.expected(TokenKind::Semicolon);
            if is_clean(s, end.state) {
                mk_typedef(taipe, s.tokens, s.index, read.state.index);
            }
        }
    } else {
        let read = s.logical();
        lemma_logical(s);
        if let Ok(expr) = read.result {
            let end = read.state.expected(TokenKind::Semicolon);
            if is_clean(s, end.state) {
                mk_expr_object(expr, s.tokens, s.index, read.state.index);
            }
        }
    }
}

#[verifier::spinoff_prover]
proof fn lemma_using_rest(s: ParseState, start: int, items: Seq<TokenView>)
    requires
        is_within(s),
        path_at(items, s.tokens, start, s.index),
        forall|m: int| 0 <= m < items.len() ==> (#[trigger] items[m]).kind == TokenKind::Ident,
    ensures
        s.using_rest(items).result matches Ok(all) ==> {
            let r = s.using_rest(items).state;
            &&& goes(s, r)
            &&& path_at(all, s.tokens, start, r.index)
            &&& forall|m: int|
                0 <= m < all.len() - 1 ==> (#[trigger] all[m]).kind == TokenKind::Ident
            &&& all.last().kind == TokenKind::Ident || (all.len() > 1 && all.last().kind
                == TokenKind::Star)
        },
    decreases s.left(), 0nat,
{
    reveal(ParseState::using_rest);
    if s.at(TokenKind::Dot) {
        let next = s.taken();
        if next.at(TokenKind::Ident) {
            let tok = next.peek()->0;
            lemma_path_more(items, tok, s.tokens, start, s.index);
            lemma_using_rest(next.taken(), start, items.push(tok));
        } else if next.at(TokenKind::Star) {
            lemma_path_more(items, next.peek()->0, s.tokens, start, s.index);
        }
    }
}

#[verifier::spinoff_prover]
proof fn lemma_decl(s: ParseState)
    requires
        is_within(s),
    ensures
        decl_read(s, s.decl()),
    decreases s.left(), 42nat,
{
    reveal(ParseState::decl);
    reveal(ParseState::taipe);
    reveal(ParseState::decl_value);
    reveal(ParseState::object);
    reveal(ParseState::using_rest);
    if s.at(TokenKind::Ident) || s.at(TokenKind::Underscore) {
        let name = s.peek()->0;
        if s.taken().at(TokenKind::Colon) {
            let colon = s.taken().taken();
            let read = colon.taipe();
            lemma_taipe(colon);
            match read.result {
                Ok(taipe) => {
                    lemma_past(s, read.state);
                    let next = read.state;
                    if next.at(TokenKind::Equal) || next.at(TokenKind::Colon) {
                        let value = next.taken().object();
                        lemma_object(next.taken());
                        if let Ok(object) = value.result {
                            if is_clean(s, value.state) {
                                mk_valued_decl(
                                    name,
                                    taipe,
                                    next.peek()->0,
                                    object,
                                    s.tokens,
                                    s.index,
                                    next.index,
                                    value.state.index,
                                );
                            }
                        }
                    } else {
                        let end = next.expected(TokenKind::Semicolon);
                        if is_clean(s, end.state) {
                            mk_typed_decl(name, taipe, s.tokens, s.index, next.index);
                        }
                    }
                },
                Err(_) => {
                    if colon.at(TokenKind::Equal) || colon.at(TokenKind::Colon) {
                        let value = colon.taken().object();
                        lemma_object(colon.taken());
                        if let Ok(object) = value.result {
                            if is_clean(s, value.state) {
                                mk_plain_decl(
                                    name,
                                    colon.peek()->0,
                                    object,
                                    s.tokens,
                                    s.index,
                                    value.state.index,
                                );
                            }
                        }
                    }
                },
            }
        }
    } else if s.at(TokenKind::Using) {
        if s.taken().at(TokenKind::Ident) {
            let tok = s.taken().peek()->0;
            let first = s.taken().taken();
            let items = seq![tok];
            lemma_using_rest(first, s.index + 1, items);
            let rest = first.using_rest(items);
            if let Ok(all) = rest.result {
                let end = rest.state.expected(TokenKind::Semicolon);
                if is_clean(s, end.state) {
                    mk_using(all, s.tokens, s.index, rest.state.index);
                }
            }
        }
    }
}

#[verifier::spinoff_prover]
proof fn lemma_decls(s: ParseState, start: int, decls: Seq<DeclView>)
    requires
        is_within(s),
    ensures
        s.decls(decls).result matches Ok(all) ==> {
            let r = s.decls(decls).state;
            &&& goes(s, r)
            &&& !r.at_decl()
            &&& is_clean(s, r) && decls_at(
                decls,
                decls.len() as int,
                s.tokens,
                start,
                s.index,
            ) ==> decls_at(all, all.len() as int, s.tokens, start, r.index)
        },
    decreases s.left(), 52nat,
{
    reveal(ParseState::decls);
    reveal(ParseState::decl);
    if s.at_decl() {
        let item = s.decl();
        lemma_decl(s);
        if let Ok(decl) = item.result {
            lemma_past(s, item.state);
            if is_clean(s, item.state) && decls_at(
                decls,
                decls.len() as int,
                s.tokens,
                start,
                s.index,
            ) {
                lemma_decls_more(decls, decl, s.tokens, start, s.index, item.state.index);
            }
            lemma_decls(item.state, start, decls.push(decl));
        }
    }
}

/// A program that is accepted is what its tokens say: its declarations, written out in order with
/// all that belongs to them, are the tokens from the first one up to one at which no declaration
/// begins.
#[verifier::spinoff_prover]
pub proof fn law_program_written_out(s: ParseState)
    requires
        is_within(s),
        s.errors.len() == 0,
    ensures
        s.program().result matches Ok(object) ==> {
            let end = s.program().state;
            &&& object is Module
            &&& goes(s, end)
            &&& !end.at_decl()
            &&& decls_at(
                object->Module_decls,
                object->Module_decls.len() as int,
                s.tokens,
                s.index,
                end.index,
            )
        },
{
    lemma_no_decls(s.tokens, s.index);
    lemma_decls(s, s.index, seq![]);
}

/// What is read of the parts of a program is what the tokens say, where nothing is reported: an
/// expression, a type, a statement, a declaration and what it gives a name to, each written out in
/// order, are the tokens from the place where reading began up to the place where it ended. The
/// operators of an expression hold their operands by their strength, and of two operators that are
/// equally strong the first one does.
#[verifier::spinoff_prover]
pub proof fn law_parts_written_out(s: ParseState)
    requires
        is_within(s),
    ensures
        expr_read(s, s.logical(), 1),
        expr_read(s, s.expr_or_assign(), 0),
        taipe_read(s, s.taipe()),
        stmt_read(s, s.block()),
        stmt_read(s, s.stmt()),
        stmt_read(s, s.decl_or_stmt()),
        decl_read(s, s.decl()),
        object_read(s, s.object()),
        field_read(s, s.field()),
        param_read(s, s.param()),
        arg_read(s, s.arg()),
{
    lemma_logical(s);
    lemma_expr_or_assign(s);
    lemma_taipe(s);
    lemma_block(s);
    lemma_stmt(s);
    lemma_decl_or_stmt(s);
    lemma_decl(s);
    lemma_object(s);
    lemma_field(s);
    lemma_param(s);
    lemma_arg(s);
}

/// In an 'if' statement that was read, the condition comes first, then the block that is for a
/// condition that holds, then 'else', and then the block that is for one that does not.
#[verifier::spinoff_prover]
pub proof fn law_if_in_order(s: ParseState)
    requires
        is_within(s),
        s.if_stmt().result is Ok,
        is_clean(s, s.if_stmt().state),
    ensures
        s.if_stmt().result->Ok_0 is If,
        ({
            let stmt = s.if_stmt().result->Ok_0;
            let end = s.if_stmt().state.index;
            exists|k: int, m: int| #[trigger]
                stands_between(k, m) && expr_at(stmt->If_expr, s.tokens, s.index + 1, k) && stmt_at(
                    *stmt->If_then_body,
                    s.tokens,
                    k,
                    m,
                ) && (match stmt->If_else_body {
                    None => m == end,
                    Some(other) => kind_at(s.tokens, m, TokenKind::Else) && stmt_at(
                        *other,
                        s.tokens,
                        m + 1,
                        end,
                    ),
                })
        }),
{
    reveal(ParseState::if_stmt);
    reveal(stmt_at);
    reveal(bodies_at);
    reveal(expr_at);
    lemma_if_stmt(s);
    let stmt = s.if_stmt().result->Ok_0;
    let end = s.if_stmt().state.index;
    assert(stmt_at(stmt, s.tokens, s.index, end));
    let k = choose|k: int| #[trigger]
        place(k) && expr_at(stmt->If_expr, s.tokens, s.index + 1, k) && bodies_at(
            stmt,
            s.tokens,
            k,
            end,
        );
    assert(bodies_at(stmt, s.tokens, k, end));
    match stmt->If_else_body {
        None => {
            assert(stands_between(k, end));
        },
        Some(other) => {
            let m = choose|m: int| #[trigger]
                place(m) && stmt_at(*stmt->If_then_body, s.tokens, k, m) && kind_at(
                    s.tokens,
                    m,
                    TokenKind::Else,
                ) && stmt_at(*other, s.tokens, m + 1, end);
            assert(stands_between(k, m));
        },
    }
}

/// Any two places.
pub open spec fn stands_between(k: int, m: int) -> bool {
    true
}

} // verus!
