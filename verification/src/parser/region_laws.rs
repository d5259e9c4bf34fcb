use vstd::prelude::*;

use crate::ast::{ArgView, DeclView, ExprView, FieldView, ObjectView, ParamView, StmtView, TypeView};
use crate::common::Span;
use crate::parser::laws::{
    arg_at, args_at, args_before, decl_at, expr_at, exprs_at, exprs_before, field_at, is_region,
    kind_at, object_at, param_at, place, stmt_at, strength, taipe_at, taipes_at, taipes_before,
    token_at,
};
use crate::token::{TokenKind, TokenView};

verus! {

/// Whether a region is the one of the tokens from a place up to another one, but for commas at
/// their end.
pub open spec fn is_region_or_commas(t: Seq<TokenView>, i: int, j: int, region: Span) -> bool {
    exists|m: int| #[trigger]
        place(m) && i < m <= j && is_region(t, i, m, region) && all_commas(t, m, j)
}

/// Whether the tokens from a place up to another one are commas.
pub open spec fn all_commas(t: Seq<TokenView>, i: int, j: int) -> bool {
    &&& j <= t.len()
    &&& forall|k: int| i <= k < j ==> (#[trigger] t[k]).kind == TokenKind::Comma
}

#[verifier::spinoff_prover]
proof fn lemma_taipe_region(ty: TypeView, t: Seq<TokenView>, i: int, j: int)
    requires
        taipe_at(ty, t, i, j),
    ensures
        ty.has_span(),
        is_region(t, i, j, ty.span()),
    decreases ty,
{
    reveal(taipe_at);
    reveal(expr_at);
    match ty {
        TypeView::Path { items } => {
            let n = items.len() as int;
            assert(token_at(t, i + 2 * 0, items[0]));
            assert(token_at(t, i + 2 * (n - 1), items[n - 1]));
        },
        TypeView::Function { line_info: _, params, ret } => {
            let k = choose|k: int| #[trigger]
                place(k) && taipes_at(params, t, i + 2, k) && kind_at(
                    t,
                    k,
                    TokenKind::RParen,
                ) && kind_at(t, k + 1, TokenKind::Arrow) && taipe_at(*ret, t, k + 2, j);
            lemma_taipe_region(*ret, t, k + 2, j);
            lemma_after(params, t, i + 2, k);
        },
        TypeView::Const { token: _, taipe } => {
            lemma_taipe_region(*taipe, t, i + 1, j);
        },
        TypeView::Pointer { token: _, taipe } => {
            lemma_taipe_region(*taipe, t, i + 1, j);
        },
        _ => {},
    }
}

#[verifier::spinoff_prover]
proof fn lemma_after(items: Seq<TypeView>, t: Seq<TokenView>, i: int, j: int)
    requires
        taipes_at(items, t, i, j),
    ensures
        i <= j,
    decreases items, items.len() + 1,
{
    reveal(taipes_at);
    reveal(taipes_before);
    reveal(taipe_at);
    if taipes_before(items, items.len() as int, t, i, j) {
        lemma_after_first(items, items.len() as int, t, i, j);
    } else {
        let k = choose|k: int| #[trigger]
            place(k) && taipes_before(items, items.len() - 1, t, i, k)
                && taipe_at(items.last(), t, k, j);
        lemma_after_first(items, items.len() - 1, t, i, k);
        lemma_taipe_region(items.last(), t, k, j);
    }
}

#[verifier::spinoff_prover]
proof fn lemma_after_first(items: Seq<TypeView>, n: int, t: Seq<TokenView>, i: int, j: int)
    requires
        taipes_before(items, n, t, i, j),
    ensures
        i <= j,
    decreases items, n,
{
    reveal(taipes_before);
    reveal(taipe_at);
    if n > 0 {
        let k = choose|k: int| #[trigger]
            place(k) && taipes_before(items, n - 1, t, i, k) && taipe_at(
                items[n - 1],
                t,
                k,
                j - 1,
            );
        lemma_after_first(items, n - 1, t, i, k);
        lemma_taipe_region(items[n - 1], t, k, j - 1);
    }
}

#[verifier::spinoff_prover]
proof fn lemma_expr_region(e: ExprView, t: Seq<TokenView>, i: int, j: int)
    requires
        expr_at(e, t, i, j),
    ensures
        e.has_span(),
        is_region_or_commas(t, i, j, e.span()),
        strength(e) > 0 ==> is_region(t, i, j, e.span()),
    decreases e, 5nat,
{
    reveal(expr_at);
    reveal(exprs_at);
    reveal(args_at);
    reveal(taipe_at);
    reveal(ExprView::has_span);
    reveal(ExprView::span);
    assert(place(j));
    match e {
        ExprView::Unary { op: _, expr } => {
            lemma_expr_region(*expr, t, i + 1, j);
        },
        ExprView::Binary { left, op, right } => {
            let k = choose|k: int| #[trigger]
                place(k) && expr_at(*left, t, i, k) && token_at(t, k, op) && expr_at(
                    *right,
                    t,
                    k + 1,
                    j,
                );
            lemma_expr_region(*left, t, i, k);
            lemma_expr_region(*right, t, k + 1, j);
        },
        ExprView::Cast { expr, taipe } => {
            let k = choose|k: int| #[trigger]
                place(k) && expr_at(*expr, t, i, k) && kind_at(t, k, TokenKind::As) && taipe_at(
                    *taipe,
                    t,
                    k + 1,
                    j,
                );
            lemma_expr_region(*expr, t, i, k);
            lemma_taipe_region(*taipe, t, k + 1, j);
        },
        ExprView::Member { expr, name: _ } => {
            lemma_expr_region(*expr, t, i, j - 2);
        },
        ExprView::Call { line_info: _, expr, args } => {
            let k = choose|k: int| #[trigger]
                place(k) && expr_at(*expr, t, i, k) && kind_at(t, k, TokenKind::LParen) && args_at(
                    args,
                    t,
                    k + 1,
                    j - 1,
                );
            lemma_expr_region(*expr, t, i, k);
            lemma_args_after(args, t, k + 1, j - 1);
        },
        ExprView::Index { line_info: _, expr, items } => {
            let k = choose|k: int| #[trigger]
                place(k) && expr_at(*expr, t, i, k) && kind_at(t, k, TokenKind::LBrack) && exprs_at(
                    items,
                    t,
                    k + 1,
                    j - 1,
                );
            lemma_expr_region(*expr, t, i, k);
            lemma_exprs_region(items, t, k + 1, j - 1);
        },
        ExprView::Assign { lhses, op, rhses } => {
            let k = choose|k: int| #[trigger]
                place(k) && exprs_at(lhses, t, i, k) && token_at(t, k, op) && exprs_at(
                    rhses,
                    t,
                    k + 1,
                    j,
                );
            lemma_exprs_region(lhses, t, i, k);
            lemma_exprs_region(rhses, t, k + 1, j);
        },
        _ => {},
    }
}

/// Whether a region begins where a token begins.
spec fn begins_at(t: Seq<TokenView>, i: int, region: Span) -> bool {
    &&& 0 <= i < t.len()
    &&& region.line_start == t[i].line_info.line_start
    &&& region.col_start == t[i].line_info.col_start
}

/// Whether a region ends where the last token between two places ends, but for commas.
spec fn ends_in(t: Seq<TokenView>, i: int, j: int, region: Span) -> bool {
    exists|m: int| #[trigger]
        place(m) && i < m <= j && all_commas(t, m, j) && region.line_end == t[m
            - 1].line_info.line_end && region.col_end == t[m - 1].line_info.col_end
}

#[verifier::spinoff_prover]
proof fn lemma_args_after(items: Seq<ArgView>, t: Seq<TokenView>, i: int, j: int)
    requires
        args_at(items, t, i, j),
    ensures
        i <= j,
    decreases items, items.len() + 1,
{
    reveal(args_at);
    reveal(args_before);
    reveal(arg_at);
    reveal(expr_at);
    if args_before(items, items.len() as int, t, i, j) {
        lemma_first_args_after(items, items.len() as int, t, i, j);
    } else {
        let k = choose|k: int| #[trigger]
            place(k) && args_before(items, items.len() - 1, t, i, k) && arg_at(
                items.last(),
                t,
                k,
                j,
            );
        lemma_first_args_after(items, items.len() - 1, t, i, k);
        if items.last().name is None {
            lemma_expr_region(items.last().expr, t, k, j);
        } else {
            lemma_expr_region(items.last().expr, t, k + 2, j);
        }
    }
}

#[verifier::spinoff_prover]
proof fn lemma_first_args_after(items: Seq<ArgView>, n: int, t: Seq<TokenView>, i: int, j: int)
    requires
        args_before(items, n, t, i, j),
    ensures
        i <= j,
    decreases items, n,
{
    reveal(args_before);
    reveal(arg_at);
    reveal(expr_at);
    if n > 0 {
        let k = choose|k: int| #[trigger]
            place(k) && args_before(items, n - 1, t, i, k) && arg_at(items[n - 1], t, k, j - 1);
        lemma_first_args_after(items, n - 1, t, i, k);
        if items[n - 1].name is None {
            lemma_expr_region(items[n - 1].expr, t, k, j - 1);
        } else {
            lemma_expr_region(items[n - 1].expr, t, k + 2, j - 1);
        }
    }
}

#[verifier::spinoff_prover]
proof fn lemma_exprs_region(items: Seq<ExprView>, t: Seq<TokenView>, i: int, j: int)
    requires
        exprs_at(items, t, i, j),
    ensures
        i <= j,
        items.len() > 0 ==> i < j && items[0].has_span() && items.last().has_span() && begins_at(
            t,
            i,
            items[0].span(),
        ) && ends_in(t, i, j, items.last().span()),
    decreases items, items.len() + 1,
{
    reveal(exprs_at);
    reveal(exprs_before);
    reveal(expr_at);
    if exprs_before(items, items.len() as int, t, i, j) {
        lemma_first_exprs_region(items, items.len() as int, t, i, j);
    } else {
        let k = choose|k: int| #[trigger]
            place(k) && exprs_before(items, items.len() - 1, t, i, k) && expr_at(
                items.last(),
                t,
                k,
                j,
            );
        lemma_first_exprs_region(items, items.len() - 1, t, i, k);
        lemma_expr_region(items.last(), t, k, j);
        if items.len() == 1 {
            reveal(exprs_before);
            assert(k == i);
        }
    }
}

#[verifier::spinoff_prover]
proof fn lemma_first_exprs_region(
    items: Seq<ExprView>,
    n: int,
    t: Seq<TokenView>,
    i: int,
    j: int,
)
    requires
        exprs_before(items, n, t, i, j),
    ensures
        i <= j,
        n > 0 ==> i < j && n <= items.len() && items[0].has_span() && items[n - 1].has_span()
            && begins_at(t, i, items[0].span()) && ends_in(t, i, j, items[n - 1].span()),
    decreases items, n,
{
    reveal(exprs_before);
    reveal(expr_at);
    if n > 0 {
        let k = choose|k: int| #[trigger]
            place(k) && exprs_before(items, n - 1, t, i, k) && expr_at(items[n - 1], t, k, j - 1);
        lemma_first_exprs_region(items, n - 1, t, i, k);
        lemma_expr_region(items[n - 1], t, k, j - 1);
    }
}

/// An expression or a type that tokens are read as occupies the region of these tokens, from the
/// first to the last one. A comma that ends an assignment to several places does not belong to
/// its region.
pub proof fn law_expression_region(
    e: ExprView,
    ty: TypeView,
    t: Seq<TokenView>,
    i: int,
    j: int,
)
    ensures
        expr_at(e, t, i, j) ==> e.line() is Ok && is_region_or_commas(t, i, j, e.line()->Ok_0),
        expr_at(e, t, i, j) && strength(e) > 0 ==> is_region(t, i, j, e.line()->Ok_0),
        taipe_at(ty, t, i, j) ==> ty.line() is Ok && is_region(t, i, j, ty.line()->Ok_0),
{
    if expr_at(e, t, i, j) {
        lemma_expr_region(e, t, i, j);
    }
    if taipe_at(ty, t, i, j) {
        lemma_taipe_region(ty, t, i, j);
    }
}

/// The regions of a parameter and of a field begin with the name, and end with the value that is
/// given, or with the type where none is.
#[verifier::spinoff_prover]
pub proof fn law_member_region(
    p: ParamView,
    f: FieldView,
    t: Seq<TokenView>,
    i: int,
    j: int,
)
    ensures
        param_at(p, t, i, j) ==> p.line() is Ok && is_region_or_commas(t, i, j, p.line()->Ok_0),
        field_at(f, t, i, j) ==> f.line() is Ok && is_region_or_commas(t, i, j, f.line()->Ok_0),
{
    reveal(param_at);
    reveal(field_at);
    reveal(taipe_at);
    reveal(expr_at);
    assert(place(j));
    if param_at(p, t, i, j) {
        match (p.eq_token, p.expr) {
            (Some(eq), Some(e)) => {
                let k = choose|k: int| #[trigger]
                    place(k) && taipe_at(p.taipe, t, i + 2, k) && token_at(t, k, eq) && expr_at(
                        e,
                        t,
                        k + 1,
                        j,
                    );
                lemma_taipe_region(p.taipe, t, i + 2, k);
                lemma_expr_region(e, t, k + 1, j);
            },
            _ => {
                lemma_taipe_region(p.taipe, t, i + 2, j);
            },
        }
    }
    if field_at(f, t, i, j) {
        if let FieldView::Decl { name: _, taipe, eq_token, expr } = f {
            match (eq_token, expr) {
                (Some(eq), Some(e)) => {
                    let k = choose|k: int| #[trigger]
                        place(k) && taipe_at(taipe, t, i + 2, k) && token_at(t, k, eq) && expr_at(
                            e,
                            t,
                            k + 1,
                            j,
                        );
                    lemma_taipe_region(taipe, t, i + 2, k);
                    lemma_expr_region(e, t, k + 1, j);
                },
                _ => {
                    lemma_taipe_region(taipe, t, i + 2, j);
                },
            }
        }
    }
}

/// Whether the region of a declaration ends before the semicolon at its end: that of a function, a
/// module, a struct or a union does not.
pub open spec fn ends_before_semicolon(d: DeclView) -> bool {
    match d {
        DeclView::Decl { object, .. } => match object {
            None => true,
            Some(o) => o is ExternModule || o is Typedef || o is Expr,
        },
        _ => false,
    }
}

/// The region of a declaration begins with its name, and ends with what it declares.
#[verifier::spinoff_prover]
pub proof fn law_declaration_region(d: DeclView, t: Seq<TokenView>, i: int, j: int)
    requires
        decl_at(d, t, i, j),
    ensures
        d.line() is Ok,
        !ends_before_semicolon(d) ==> is_region(t, i, j, d.line()->Ok_0),
        ends_before_semicolon(d) ==> kind_at(t, j - 1, TokenKind::Semicolon)
            && is_region_or_commas(t, i, j - 1, d.line()->Ok_0),
{
    reveal(decl_at);
    reveal(object_at);
    reveal(field_at);
    reveal(taipe_at);
    reveal(expr_at);
    assert(place(j - 1));
    if let DeclView::Decl { name: _, taipe, eq_token, object } = d {
        match (taipe, eq_token, object) {
            (None, Some(eq), Some(o)) => {
                lemma_object_region(o, t, i + 3, j);
            },
            (Some(ty), None, None) => {
                lemma_taipe_region(ty, t, i + 2, j - 1);
            },
            (Some(ty), Some(eq), Some(o)) => {
                let k = choose|k: int| #[trigger]
                    place(k) && taipe_at(ty, t, i + 2, k) && token_at(t, k, eq) && object_at(
                        o,
                        t,
                        k + 1,
                        j,
                    );
                lemma_taipe_region(ty, t, i + 2, k);
                lemma_object_region(o, t, k + 1, j);
            },
            _ => {},
        }
    }
}

#[verifier::spinoff_prover]
proof fn lemma_object_region(o: ObjectView, t: Seq<TokenView>, i: int, j: int)
    requires
        object_at(o, t, i, j),
    ensures
        o.has_span(),
        i < j <= t.len(),
        o is ExternModule || o is Typedef || o is Expr ==> kind_at(t, j - 1, TokenKind::Semicolon)
            && ends_in(t, i, j - 1, o.span()),
        !(o is ExternModule || o is Typedef || o is Expr) ==> is_region(t, i, j, o.span()),
{
    reveal(object_at);
    reveal(field_at);
    reveal(taipe_at);
    reveal(expr_at);
    assert(place(j - 1));
    match o {
        ObjectView::Typedef(ty) => {
            lemma_taipe_region(ty, t, i + 1, j - 1);
        },
        ObjectView::Expr(expr) => {
            lemma_expr_region(expr, t, i, j - 1);
        },
        _ => {},
    }
}

/// The region of a statement is that of its tokens, without the semicolon at its end.
#[verifier::spinoff_prover]
pub proof fn law_statement_region(s: StmtView, t: Seq<TokenView>, i: int, j: int)
    requires
        stmt_at(s, t, i, j),
    ensures
        s.line() is Ok,
        match s {
            StmtView::If { .. }
            | StmtView::While { .. }
            | StmtView::Block { .. }
            | StmtView::Nop(_) => is_region(t, i, j, s.line()->Ok_0),
            StmtView::Decl(d) => s.line() == d.line() && decl_at(*d, t, i, j),
            _ => kind_at(t, j - 1, TokenKind::Semicolon) && is_region_or_commas(
                t,
                i,
                j - 1,
                s.line()->Ok_0,
            ),
        },
{
    reveal(stmt_at);
    reveal(expr_at);
    reveal(decl_at);
    assert(place(j - 1));
    match s {
        StmtView::Yield { token: _, expr } => {
            lemma_expr_region(expr, t, i + 1, j - 1);
        },
        StmtView::Return { token: _, expr: Some(e) } => {
            lemma_expr_region(e, t, i + 1, j - 1);
        },
        StmtView::Expr(expr) => {
            lemma_expr_region(*expr, t, i, j - 1);
        },
        StmtView::Decl(d) => {
            law_declaration_region(*d, t, i, j);
        },
        _ => {},
    }
}

} // verus!
