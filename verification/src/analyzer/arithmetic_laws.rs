use vstd::prelude::*;

use crate::analyzer::AnalyzerView;
use crate::common::{Span, StopView};
use crate::context::{
    fits, kind_max, kind_min, law_quotient_remainder, quotient, remainder, ContextView,
    FloatView, ImmView, IntKind, TypeView, ValueView,
};
use crate::scope::{ScopeIdView, ScopeKind};
use crate::token::TokenKind;

verus! {

/// Whether a value with its type is an integer of a kind, and of the type of that kind.
pub open spec fn holds_int(ctx: ContextView, taipe: TypeView, kind: IntKind, number: int) -> bool {
    &&& ctx.taipe.remove_const() == taipe
    &&& taipe.int_kind() == Some(kind)
    &&& ctx.value matches ValueView::Imm(imm)
    &&& imm.int_kind() == Some(kind)
    &&& imm.int_value() == number
}

/// Whether the evaluation of an expression gives an integer of a kind.
pub open spec fn gives_int(
    s: AnalyzerView,
    ctx: ContextView,
    fuel: int,
    taipe: TypeView,
    kind: IntKind,
    number: int,
) -> bool {
    s.compeval_context(ctx, fuel) matches Ok(r) && holds_int(r, taipe, kind, number)
}

/// Whether the evaluation of an expression gives an integer where its kind can hold it, and is
/// reported as an overflow exactly where it cannot.
pub open spec fn gives_checked(
    s: AnalyzerView,
    ctx: ContextView,
    fuel: int,
    taipe: TypeView,
    kind: IntKind,
    number: int,
    line: Span,
) -> bool {
    if kind_min(kind) <= number <= kind_max(kind) {
        gives_int(s, ctx, fuel, taipe, kind, number)
    } else {
        reports_overflow(s, ctx, fuel, line)
    }
}

/// Whether the evaluation of an expression is reported as an overflow.
pub open spec fn reports_overflow(
    s: AnalyzerView,
    ctx: ContextView,
    fuel: int,
    line: Span,
) -> bool {
    s.compeval_context(ctx, fuel) == Err::<ContextView, _>(
        StopView::Errors(s.make_err("detected integer overflow"@, line)),
    )
}

/// Whether a number is the quotient of two others without what is behind the point, and another
/// one is what remains.
pub open spec fn divides_to(a: int, b: int, q: int, r: int) -> bool {
    &&& q * b + r == a
    &&& -(if b < 0 { -b } else { b }) < r < (if b < 0 { -b } else { b })
    &&& a >= 0 ==> r >= 0
    &&& a <= 0 ==> r <= 0
}

proof fn lemma_divides(a: int, b: int)
    requires
        b != 0,
    ensures
        divides_to(a, b, quotient(a, b), remainder(a, b)),
{
    law_quotient_remainder(a, b);
    let x = if a < 0 { -a } else { a };
    let y = if b < 0 { -b } else { b };
    assert(0 <= x % y < y) by (nonlinear_arith)
        requires
            y > 0,
    ;
    if a == 0 {
        assert(0int % y == 0) by (nonlinear_arith)
            requires
                y > 0,
        ;
    }
}

proof fn lemma_divides_once(a: int, b: int, q: int, r: int)
    requires
        b != 0,
        divides_to(a, b, q, r),
    ensures
        q == quotient(a, b),
        r == remainder(a, b),
{
    lemma_divides(a, b);
    let p = quotient(a, b);
    let m = remainder(a, b);
    assert((q - p) * b == m - r) by (nonlinear_arith)
        requires
            q * b + r == a,
            p * b + m == a,
    ;
    let y = if b < 0 { -b } else { b };
    assert(-y < m - r < y);
    assert(q == p) by (nonlinear_arith)
        requires
            (q - p) * b == m - r,
            -y < m - r < y,
            y == (if b < 0 { -b } else { b }),
            b != 0,
    ;
}

proof fn lemma_folded(
    s: AnalyzerView,
    op: TokenKind,
    line: Span,
    l: ContextView,
    r: ContextView,
    taipe: TypeView,
    kind: IntKind,
    a: int,
    b: int,
)
    requires
        holds_int(l, taipe, kind, a),
        holds_int(r, taipe, kind, b),
    ensures
        ({
            let x = l.value->Imm_0;
            let y = r.value->Imm_0;
            &&& x.same_int_kind(y)
            &&& s.fold_arithmetic(op, line, l, r) == match s.fold_imm(op, x, y) {
                Ok(Some(imm)) => Ok(ContextView::make(false, taipe, ValueView::Imm(imm))),
                Ok(None) => Err(StopView::Errors(s.make_err("detected integer overflow"@, line))),
                Err(e) => Err(e),
            }
        }),
{
    reveal(AnalyzerView::fold_arithmetic);
}

/// The evaluation of an operator of arithmetic on two integers of one type gives the sum, the
/// difference, the product, the quotient rounded towards zero or the remainder of these integers,
/// as an integer of the same type. What the type cannot hold is reported as an overflow, and so
/// is a division by zero.
pub proof fn law_evaluated_arithmetic(
    s: AnalyzerView,
    node: ContextView,
    line: Span,
    lhs: ContextView,
    rhs: ContextView,
    taipe: TypeView,
    kind: IntKind,
    a: int,
    b: int,
    q: int,
    r: int,
    fuel: int,
)
    requires
        fuel > 0,
        gives_int(s, lhs, fuel - 1, taipe, kind, a),
        gives_int(s, rhs, fuel - 1, taipe, kind, b),
    ensures
        node.value == (ValueView::Add { line_info: line, lhs: Box::new(lhs), rhs: Box::new(rhs) })
            ==> gives_checked(s, node, fuel, taipe, kind, a + b, line),
        node.value == (ValueView::Sub { line_info: line, lhs: Box::new(lhs), rhs: Box::new(rhs) })
            ==> gives_checked(s, node, fuel, taipe, kind, a - b, line),
        node.value == (ValueView::Mul { line_info: line, lhs: Box::new(lhs), rhs: Box::new(rhs) })
            ==> gives_checked(s, node, fuel, taipe, kind, a * b, line),
        node.value == (ValueView::Div { line_info: line, lhs: Box::new(lhs), rhs: Box::new(rhs) })
            ==> if b == 0 {
            reports_overflow(s, node, fuel, line)
        } else {
            divides_to(a, b, q, r) ==> gives_checked(s, node, fuel, taipe, kind, q, line)
        },
        node.value == (ValueView::Rem { line_info: line, lhs: Box::new(lhs), rhs: Box::new(rhs) })
            ==> if b == 0 {
            reports_overflow(s, node, fuel, line)
        } else {
            divides_to(a, b, q, r) ==> if kind_min(kind) <= q <= kind_max(kind) {
                gives_int(s, node, fuel, taipe, kind, r)
            } else {
                reports_overflow(s, node, fuel, line)
            }
        },
{
    reveal(AnalyzerView::compeval_context);
    reveal(AnalyzerView::compeval_trivial_impl);
    reveal(AnalyzerView::compeval_pair);
    reveal(AnalyzerView::fold_imm);
    let x = s.compeval_context(lhs, fuel - 1)->Ok_0;
    let y = s.compeval_context(rhs, fuel - 1)->Ok_0;
    assert(s.compeval_pair(lhs, rhs, fuel - 1) == Ok::<_, StopView>((x, y)));
    lemma_folded(s, TokenKind::Plus, line, x, y, taipe, kind, a, b);
    lemma_folded(s, TokenKind::Minus, line, x, y, taipe, kind, a, b);
    lemma_folded(s, TokenKind::Star, line, x, y, taipe, kind, a, b);
    lemma_folded(s, TokenKind::Slash, line, x, y, taipe, kind, a, b);
    lemma_folded(s, TokenKind::Percent, line, x, y, taipe, kind, a, b);
    if b != 0 && divides_to(a, b, q, r) {
        lemma_divides_once(a, b, q, r);
        lemma_remainder_fits(kind, a, b);
    }
    assert(s.compeval_context(node, fuel) == s.compeval_trivial_impl(
        node.is_lvalue,
        node.taipe,
        node.value,
        fuel,
    ));
}

proof fn lemma_remainder_fits(kind: IntKind, a: int, b: int)
    requires
        b != 0,
        fits(kind, a),
    ensures
        fits(kind, remainder(a, b)),
{
    lemma_divides(a, b);
    let x = if a < 0 { -a } else { a };
    let y = if b < 0 { -b } else { b };
    assert(0 <= x % y <= x) by (nonlinear_arith)
        requires
            x >= 0,
            y > 0,
    ;
}

/// The evaluation of `-` gives the integer below zero by as much as the operand is above it, and
/// the evaluation of `~` the integer as far from the greatest one as the operand is from the
/// least one.
pub proof fn law_evaluated_unary(
    s: AnalyzerView,
    node: ContextView,
    line: Span,
    inner: ContextView,
    taipe: TypeView,
    kind: IntKind,
    a: int,
    fuel: int,
)
    requires
        fuel > 0,
        gives_int(s, inner, fuel - 1, taipe, kind, a),
    ensures
        node.value == (ValueView::Negate { line_info: line, ctx: Box::new(inner) }) ==> if kind_min(
            kind,
        ) < 0 && -a <= kind_max(kind) {
            gives_int(s, node, fuel, taipe, kind, -a)
        } else {
            s.compeval_context(node, fuel) matches Err(StopView::Unsupported(_))
        },
        node.value == (ValueView::FlipBits { line_info: line, ctx: Box::new(inner) }) ==> gives_int(
            s,
            node,
            fuel,
            taipe,
            kind,
            kind_max(kind) - (a - kind_min(kind)),
        ),
{
    reveal(AnalyzerView::compeval_context);
    reveal(AnalyzerView::compeval_trivial_impl);
    reveal(AnalyzerView::fold_negate);
    reveal(AnalyzerView::fold_flip_bits);
    let x = s.compeval_context(inner, fuel - 1)->Ok_0;
    lemma_signs(x.taipe, kind);
    assert(s.compeval_context(node, fuel) == s.compeval_trivial_impl(
        node.is_lvalue,
        node.taipe,
        node.value,
        fuel,
    ));
}

proof fn lemma_signs(t: TypeView, kind: IntKind)
    requires
        t.remove_const().int_kind() == Some(kind),
    ensures
        t.is_integer(),
        t.is_signed_integer() == (kind_min(kind) < 0),
        t.is_unsigned_integer() == (kind_min(kind) >= 0),
        !t.is_float(),
{
    reveal_with_fuel(TypeView::is_integer, 2);
    reveal_with_fuel(TypeView::is_signed_integer, 2);
    reveal_with_fuel(TypeView::is_unsigned_integer, 2);
    reveal_with_fuel(TypeView::is_float, 2);
}

/// Whether the evaluation of an expression gives a truth value.
pub open spec fn gives_truth(s: AnalyzerView, ctx: ContextView, fuel: int, truth: bool) -> bool {
    &&& s.compeval_context(ctx, fuel) matches Ok(r)
    &&& r.taipe.is_bool()
    &&& r.value == ValueView::Imm(ImmView::Bool(truth))
}

/// The evaluation of `not`, `and` and `or` gives what they mean.
pub proof fn law_evaluated_logic(
    s: AnalyzerView,
    node: ContextView,
    line: Span,
    lhs: ContextView,
    rhs: ContextView,
    x: bool,
    y: bool,
    fuel: int,
)
    requires
        fuel > 0,
        lhs.taipe.is_bool(),
        rhs.taipe.is_bool(),
        gives_truth(s, lhs, fuel - 1, x),
        gives_truth(s, rhs, fuel - 1, y),
    ensures
        node.value == (ValueView::Not { line_info: line, ctx: Box::new(lhs) }) ==> (
        s.compeval_context(node, fuel) matches Ok(r) && r.value == ValueView::Imm(
            ImmView::Bool(!x),
        )),
        node.value == (ValueView::LogicAnd {
            line_info: line,
            lhs: Box::new(lhs),
            rhs: Box::new(rhs),
        }) ==> gives_truth(s, node, fuel, x && y),
        node.value == (ValueView::LogicOr {
            line_info: line,
            lhs: Box::new(lhs),
            rhs: Box::new(rhs),
        }) ==> gives_truth(s, node, fuel, x || y),
{
    reveal(AnalyzerView::compeval_context);
    reveal(AnalyzerView::compeval_trivial_impl);
    reveal(AnalyzerView::compeval_logic);
    reveal(AnalyzerView::truth_of);
    assert(s.compeval_context(node, fuel) == s.compeval_trivial_impl(
        node.is_lvalue,
        node.taipe,
        node.value,
        fuel,
    ));
}

/// A condition that holds chooses the first of two expressions, and one that does not hold the
/// second one. The other one is not evaluated.
pub proof fn law_evaluated_choice(
    s: AnalyzerView,
    node: ContextView,
    line: Span,
    cond: ContextView,
    first: ContextView,
    second: ContextView,
    truth: bool,
    fuel: int,
)
    requires
        fuel > 0,
        gives_truth(s, cond, fuel - 1, truth),
        node.value == (ValueView::IfElse {
            line_info: line,
            cond: Box::new(cond),
            then_ctx: Box::new(first),
            else_ctx: Box::new(second),
        }),
    ensures
        truth ==> s.compeval_context(node, fuel) == s.compeval_context(first, fuel - 1),
        !truth ==> s.compeval_context(node, fuel) == s.compeval_context(second, fuel - 1),
{
    reveal(AnalyzerView::compeval_context);
    reveal(AnalyzerView::compeval_trivial_impl);
    reveal(AnalyzerView::truth_of);
    assert(s.compeval_context(node, fuel) == s.compeval_trivial_impl(
        node.is_lvalue,
        node.taipe,
        node.value,
        fuel,
    ));
}

/// The evaluation of a cast of an integer to an integer type gives an integer of that type, which
/// is the same number where the type can hold it.
pub proof fn law_evaluated_cast(
    s: AnalyzerView,
    node: ContextView,
    from: ContextView,
    taipe: TypeView,
    kind: IntKind,
    a: int,
    to: IntKind,
    fuel: int,
)
    requires
        fuel > 0,
        gives_int(s, from, fuel - 1, taipe, kind, a),
        node.value == ValueView::Cast(Box::new(from)),
        node.taipe.int_kind() == Some(to),
    ensures
        s.compeval_context(node, fuel) matches Ok(r) && r.taipe == node.taipe && r.value is Imm
            && r.value->Imm_0.int_kind() == Some(to),
        kind_min(to) <= a <= kind_max(to) ==> gives_int(s, node, fuel, node.taipe, to, a),
{
    reveal(AnalyzerView::compeval_context);
    reveal(AnalyzerView::compeval_trivial_impl);
    reveal(AnalyzerView::fold_cast);
    reveal(AnalyzerView::cast_imm);
    reveal(AnalyzerView::imm_of);
    let x = s.compeval_context(from, fuel - 1)->Ok_0;
    lemma_signs(x.taipe, kind);
    assert(s.compeval_context(node, fuel) == s.compeval_trivial_impl(
        node.is_lvalue,
        node.taipe,
        node.value,
        fuel,
    ));
}

proof fn lemma_array_items(
    s: AnalyzerView,
    item: TypeView,
    values: Seq<ValueView>,
    folded: Seq<ValueView>,
    fuel: int,
    i: int,
)
    requires
        0 <= i <= values.len(),
        folded.len() == i,
    ensures
        s.compeval_array(item, values, folded, fuel, i) matches Ok(ValueView::Array(all)) ==> {
            &&& all.len() == values.len()
            &&& forall|k: int| 0 <= k < i ==> all[k] == folded[k]
            &&& forall|k: int|
                i <= k < values.len() ==> (s.compeval_trivial_impl(
                    false,
                    item,
                    #[trigger] values[k],
                    fuel,
                ) matches Ok(r) && all[k] == r.value)
        },
    decreases values.len() - i,
{
    reveal(AnalyzerView::compeval_array);
    reveal(AnalyzerView::compeval_trivial_impl);
    if i < values.len() {
        if let Ok(ctx) = s.compeval_trivial_impl(false, item, values[i], fuel) {
            lemma_array_items(s, item, values, folded.push(ctx.value), fuel, i + 1);
        }
    }
}

proof fn lemma_tuple_items(
    s: AnalyzerView,
    types: Seq<TypeView>,
    values: Seq<ValueView>,
    folded: Seq<ValueView>,
    fuel: int,
    i: int,
)
    requires
        0 <= i <= values.len(),
        folded.len() == i,
    ensures
        s.compeval_tuple(types, values, folded, fuel, i) matches Ok(ValueView::Tuple(all)) ==> {
            &&& all.len() == values.len()
            &&& forall|k: int| 0 <= k < i ==> all[k] == folded[k]
            &&& forall|k: int|
                i <= k < values.len() ==> (s.compeval_trivial_impl(
                    false,
                    types[k],
                    #[trigger] values[k],
                    fuel,
                ) matches Ok(r) && all[k] == r.value)
        },
    decreases values.len() - i,
{
    reveal(AnalyzerView::compeval_tuple);
    reveal(AnalyzerView::compeval_trivial_impl);
    if i < values.len() {
        if let Ok(ctx) = s.compeval_trivial_impl(false, types[i], values[i], fuel) {
            lemma_tuple_items(s, types, values, folded.push(ctx.value), fuel, i + 1);
        }
    }
}

/// The evaluation of an array or a tuple evaluates every item and keeps their order.
pub proof fn law_evaluated_items(s: AnalyzerView, node: ContextView, fuel: int, k: int)
    requires
        fuel > 0,
    ensures
        (node.value is Array && 0 <= k < node.value->Array_0.len() && s.compeval_context(node, fuel)
            is Ok) ==> {
            let r = s.compeval_context(node, fuel)->Ok_0;
            let values = node.value->Array_0;
            &&& node.taipe is Array
            &&& r.taipe == node.taipe
            &&& r.value is Array
            &&& r.value->Array_0.len() == values.len()
            &&& s.compeval_trivial_impl(
                false,
                *node.taipe->Array_taipe,
                values[k],
                fuel - 1,
            ) matches Ok(item)
            &&& r.value->Array_0[k] == item.value
        },
        (node.value is Tuple && 0 <= k < node.value->Tuple_0.len() && s.compeval_context(node, fuel)
            is Ok) ==> {
            let r = s.compeval_context(node, fuel)->Ok_0;
            let values = node.value->Tuple_0;
            &&& node.taipe is Tuple
            &&& node.taipe->Tuple_0.len() == values.len()
            &&& r.taipe == node.taipe
            &&& r.value is Tuple
            &&& r.value->Tuple_0.len() == values.len()
            &&& s.compeval_trivial_impl(false, node.taipe->Tuple_0[k], values[k], fuel - 1) matches
                Ok(item)
            &&& r.value->Tuple_0[k] == item.value
        },
{
    reveal(AnalyzerView::compeval_context);
    reveal(AnalyzerView::compeval_trivial_impl);
    reveal(AnalyzerView::compeval_array);
    reveal(AnalyzerView::compeval_tuple);
    match (node.value, node.taipe) {
        (ValueView::Array(values), TypeView::Array { count: _, taipe: item }) => {
            lemma_array_items(s, *item, values, seq![], fuel - 1, 0);
            lemma_array_kept(s, *item, values, seq![], fuel - 1, 0);
        },
        (ValueView::Tuple(values), TypeView::Tuple(types)) => {
            lemma_tuple_items(s, types, values, seq![], fuel - 1, 0);
            lemma_tuple_kept(s, types, values, seq![], fuel - 1, 0);
        },
        _ => {},
    }
}

proof fn lemma_array_kept(
    s: AnalyzerView,
    item: TypeView,
    values: Seq<ValueView>,
    folded: Seq<ValueView>,
    fuel: int,
    i: int,
)
    ensures
        s.compeval_array(item, values, folded, fuel, i) matches Ok(value) ==> value is Array,
    decreases values.len() - i,
{
    reveal(AnalyzerView::compeval_array);
    reveal(AnalyzerView::compeval_trivial_impl);
    if 0 <= i < values.len() {
        if let Ok(ctx) = s.compeval_trivial_impl(false, item, values[i], fuel) {
            lemma_array_kept(s, item, values, folded.push(ctx.value), fuel, i + 1);
        }
    }
}

proof fn lemma_tuple_kept(
    s: AnalyzerView,
    types: Seq<TypeView>,
    values: Seq<ValueView>,
    folded: Seq<ValueView>,
    fuel: int,
    i: int,
)
    ensures
        s.compeval_tuple(types, values, folded, fuel, i) matches Ok(value) ==> value is Tuple,
    decreases values.len() - i,
{
    reveal(AnalyzerView::compeval_tuple);
    reveal(AnalyzerView::compeval_trivial_impl);
    if 0 <= i < values.len() {
        if let Ok(ctx) = s.compeval_trivial_impl(false, types[i], values[i], fuel) {
            lemma_tuple_kept(s, types, values, folded.push(ctx.value), fuel, i + 1);
        }
    }
}

/// The evaluation of an index gives the item at that place, counted from zero.
pub proof fn law_evaluated_index(
    s: AnalyzerView,
    node: ContextView,
    line: Span,
    lhs: ContextView,
    index: ContextView,
    taipe: TypeView,
    kind: IntKind,
    i: int,
    fuel: int,
)
    requires
        fuel > 1,
        gives_int(s, index, fuel - 1, taipe, kind, i),
        0 <= i <= usize::MAX,
        node.value == (ValueView::Index {
            line_info: line,
            lhs: Box::new(lhs),
            index: Box::new(index),
        }),
        s.compeval_context(lhs, fuel - 1) is Ok,
    ensures
        ({
            let array = s.compeval_context(lhs, fuel - 1)->Ok_0;
            let r = s.compeval_context(node, fuel);
            let plain = array.taipe.remove_const();
            &&& (array.value is Array && plain is Array && i < array.value->Array_0.len()
                && array.value->Array_0[i] is Imm) ==> (r is Ok && r->Ok_0.value
                == array.value->Array_0[i] && r->Ok_0.taipe == *plain->Array_taipe)
            &&& (array.value is Tuple && plain is Tuple && i < array.value->Tuple_0.len() && i
                < plain->Tuple_0.len() && array.value->Tuple_0[i] is Imm) ==> (r is Ok
                && r->Ok_0.value == array.value->Tuple_0[i] && r->Ok_0.taipe == plain->Tuple_0[i])
        }),
{
    reveal(AnalyzerView::compeval_context);
    reveal(AnalyzerView::compeval_trivial_impl);
    reveal(AnalyzerView::compeval_index);
    reveal(AnalyzerView::compeval_pair);
    reveal(AnalyzerView::item_type);
    reveal(AnalyzerView::tuple_type);
    let array = s.compeval_context(lhs, fuel - 1)->Ok_0;
    let place = s.compeval_context(index, fuel - 1)->Ok_0;
    assert(s.compeval_pair(lhs, index, fuel - 1) == Ok::<_, StopView>((array, place)));
    assert(s.compeval_context(node, fuel) == s.compeval_trivial_impl(
        node.is_lvalue,
        node.taipe,
        node.value,
        fuel,
    ));
    assert(s.compeval_context(node, fuel) == s.compeval_index(
        node.is_lvalue,
        line,
        lhs,
        index,
        fuel - 1,
    ));
}

/// The evaluation of arithmetic on floating point numbers of one type stands for the same
/// operation on the numbers.
pub proof fn law_evaluated_floats(
    s: AnalyzerView,
    node: ContextView,
    line: Span,
    lhs: ContextView,
    rhs: ContextView,
    a: FloatView,
    b: FloatView,
    fuel: int,
)
    requires
        fuel > 1,
        lhs.taipe.remove_const() == TypeView::Float64,
        rhs.taipe.remove_const() == TypeView::Float64,
        lhs.value == ValueView::Imm(ImmView::Float64(a)),
        rhs.value == ValueView::Imm(ImmView::Float64(b)),
    ensures
        ({
            let r = s.compeval_context(node, fuel);
            let (x, y) = (Box::new(a), Box::new(b));
            let (l, h) = (Box::new(lhs), Box::new(rhs));
            &&& node.value == (ValueView::Add { line_info: line, lhs: l, rhs: h }) ==> gives_float(
                r,
                FloatView::Add(x, y),
            )
            &&& node.value == (ValueView::Sub { line_info: line, lhs: l, rhs: h }) ==> gives_float(
                r,
                FloatView::Sub(x, y),
            )
            &&& node.value == (ValueView::Mul { line_info: line, lhs: l, rhs: h }) ==> gives_float(
                r,
                FloatView::Mul(x, y),
            )
            &&& node.value == (ValueView::Div { line_info: line, lhs: l, rhs: h }) ==> gives_float(
                r,
                FloatView::Div(x, y),
            )
            &&& node.value == (ValueView::Negate { line_info: line, ctx: l }) ==> gives_float(
                r,
                FloatView::Neg(x),
            )
        }),
{
    reveal(AnalyzerView::compeval_context);
    reveal(AnalyzerView::compeval_trivial_impl);
    reveal(AnalyzerView::compeval_pair);
    reveal(AnalyzerView::fold_arithmetic);
    reveal(AnalyzerView::fold_imm);
    reveal(AnalyzerView::fold_negate);
    reveal_with_fuel(TypeView::is_float, 2);
    assert(s.compeval_context(lhs, fuel - 1) == Ok::<_, StopView>(lhs));
    assert(s.compeval_context(rhs, fuel - 1) == Ok::<_, StopView>(rhs));
    assert(s.compeval_pair(lhs, rhs, fuel - 1) == Ok::<_, StopView>((lhs, rhs)));
    assert(s.compeval_context(node, fuel) == s.compeval_trivial_impl(
        node.is_lvalue,
        node.taipe,
        node.value,
        fuel,
    ));
}

/// Whether an evaluation gave a floating point number.
pub open spec fn gives_float(r: Result<ContextView, StopView>, number: FloatView) -> bool {
    r matches Ok(ctx) && ctx.taipe == TypeView::Float64 && ctx.value == ValueView::Imm(
        ImmView::Float64(number),
    )
}

/// How many bits the integers of a kind have: as many as tell them all apart.
pub open spec fn kind_bits(kind: IntKind) -> u32 {
    match kind {
        IntKind::Int8 | IntKind::Uint8 => 8,
        IntKind::Int16 | IntKind::Uint16 => 16,
        IntKind::Int32 | IntKind::Uint32 => 32,
        IntKind::Int64 | IntKind::Uint64 => 64,
        IntKind::Int128 | IntKind::Uint128 => 128,
    }
}

/// The common bits of two integers and the bits of either add up to the integers, the bits of
/// just one are those of either without the common ones, no bit is common with zero, and all bits
/// are common with the integer itself.
pub proof fn law_imm_bits(a: ImmView, b: ImmView)
    requires
        a.same_int_kind(b),
    ensures
        a.bit_and(b).int_kind() == a.int_kind(),
        a.bit_or(b).int_kind() == a.int_kind(),
        a.bit_xor(b).int_kind() == a.int_kind(),
        a.bit_and(b).int_value() + a.bit_or(b).int_value() == a.int_value() + b.int_value(),
        a.bit_xor(b).int_value() == a.bit_or(b).int_value() - a.bit_and(b).int_value(),
        b.int_value() == 0 ==> a.bit_and(b).int_value() == 0,
        a == b ==> a.bit_and(b) == a,
        a.int_value() >= 0 ==> 0 <= a.bit_and(b).int_value() <= a.int_value(),
        b.int_value() >= 0 ==> 0 <= a.bit_and(b).int_value() <= b.int_value(),
{
    match (a, b) {
        (ImmView::Int8(x), ImmView::Int8(y)) => {
            assert((x & y) + (x | y) == x + y && (x ^ y) == (x | y) - (x & y) && (y == 0 ==> (x & y)
                == 0) && (x == y ==> (x & y) == x) && (x >= 0 ==> 0 <= (x & y) && (x & y) <= x) && (
            y >= 0 ==> 0 <= (x & y) && (x & y) <= y)) by (bit_vector);
        },
        (ImmView::Int16(x), ImmView::Int16(y)) => {
            assert((x & y) + (x | y) == x + y && (x ^ y) == (x | y) - (x & y) && (y == 0 ==> (x & y)
                == 0) && (x == y ==> (x & y) == x) && (x >= 0 ==> 0 <= (x & y) && (x & y) <= x) && (
            y >= 0 ==> 0 <= (x & y) && (x & y) <= y)) by (bit_vector);
        },
        (ImmView::Int32(x), ImmView::Int32(y)) => {
            assert((x & y) + (x | y) == x + y && (x ^ y) == (x | y) - (x & y) && (y == 0 ==> (x & y)
                == 0) && (x == y ==> (x & y) == x) && (x >= 0 ==> 0 <= (x & y) && (x & y) <= x) && (
            y >= 0 ==> 0 <= (x & y) && (x & y) <= y)) by (bit_vector);
        },
        (ImmView::Int64(x), ImmView::Int64(y)) => {
            assert((x & y) + (x | y) == x + y && (x ^ y) == (x | y) - (x & y) && (y == 0 ==> (x & y)
                == 0) && (x == y ==> (x & y) == x) && (x >= 0 ==> 0 <= (x & y) && (x & y) <= x) && (
            y >= 0 ==> 0 <= (x & y) && (x & y) <= y)) by (bit_vector);
        },
        (ImmView::Int128(x), ImmView::Int128(y)) => {
            assert((x & y) + (x | y) == x + y && (x ^ y) == (x | y) - (x & y) && (y == 0 ==> (x & y)
                == 0) && (x == y ==> (x & y) == x) && (x >= 0 ==> 0 <= (x & y) && (x & y) <= x) && (
            y >= 0 ==> 0 <= (x & y) && (x & y) <= y)) by (bit_vector);
        },
        (ImmView::Uint8(x), ImmView::Uint8(y)) => {
            assert((x & y) + (x | y) == x + y && (x ^ y) == (x | y) - (x & y) && (y == 0 ==> (x & y)
                == 0) && (x == y ==> (x & y) == x) && (x >= 0 ==> 0 <= (x & y) && (x & y) <= x) && (
            y >= 0 ==> 0 <= (x & y) && (x & y) <= y)) by (bit_vector);
        },
        (ImmView::Uint16(x), ImmView::Uint16(y)) => {
            assert((x & y) + (x | y) == x + y && (x ^ y) == (x | y) - (x & y) && (y == 0 ==> (x & y)
                == 0) && (x == y ==> (x & y) == x) && (x >= 0 ==> 0 <= (x & y) && (x & y) <= x) && (
            y >= 0 ==> 0 <= (x & y) && (x & y) <= y)) by (bit_vector);
        },
        (ImmView::Uint32(x), ImmView::Uint32(y)) => {
            assert((x & y) + (x | y) == x + y && (x ^ y) == (x | y) - (x & y) && (y == 0 ==> (x & y)
                == 0) && (x == y ==> (x & y) == x) && (x >= 0 ==> 0 <= (x & y) && (x & y) <= x) && (
            y >= 0 ==> 0 <= (x & y) && (x & y) <= y)) by (bit_vector);
        },
        (ImmView::Uint64(x), ImmView::Uint64(y)) => {
            assert((x & y) + (x | y) == x + y && (x ^ y) == (x | y) - (x & y) && (y == 0 ==> (x & y)
                == 0) && (x == y ==> (x & y) == x) && (x >= 0 ==> 0 <= (x & y) && (x & y) <= x) && (
            y >= 0 ==> 0 <= (x & y) && (x & y) <= y)) by (bit_vector);
        },
        (ImmView::Uint128(x), ImmView::Uint128(y)) => {
            assert((x & y) + (x | y) == x + y && (x ^ y) == (x | y) - (x & y) && (y == 0 ==> (x & y)
                == 0) && (x == y ==> (x & y) == x) && (x >= 0 ==> 0 <= (x & y) && (x & y) <= x) && (
            y >= 0 ==> 0 <= (x & y) && (x & y) <= y)) by (bit_vector);
        },
        _ => {},
    }
}

/// A shift by nothing changes nothing. A shift to the right by one more bit is half of the one
/// before, rounded down; a shift to the left by one more bit is twice the one before, where the
/// kind can hold it, and otherwise what is left of it without the bit that is lost. A shift by as
/// many bits as there are is a shift by nothing.
pub proof fn law_imm_shift(a: ImmView, by: u32)
    requires
        a.int_kind() is Some,
        by + 1 < kind_bits(a.int_kind()->0),
    ensures
        a.shr(ImmView::Uint32(0)) == a,
        a.shl(ImmView::Uint32(0)) == a,
        a.shr(ImmView::Uint32(kind_bits(a.int_kind()->0))) == a,
        a.shl(ImmView::Uint32(kind_bits(a.int_kind()->0))) == a,
        ({
            let kind = a.int_kind()->0;
            let less = a.shr(ImmView::Uint32(by));
            let more = a.shr(ImmView::Uint32((by + 1) as u32));
            &&& less.int_kind() == Some(kind) && more.int_kind() == Some(kind)
            &&& 2 * more.int_value() <= less.int_value() <= 2 * more.int_value() + 1
        }),
        ({
            let kind = a.int_kind()->0;
            let less = a.shl(ImmView::Uint32(by));
            let more = a.shl(ImmView::Uint32((by + 1) as u32));
            let all = kind_max(kind) - kind_min(kind) + 1;
            let lost = 2 * less.int_value() - more.int_value();
            &&& less.int_kind() == Some(kind) && more.int_kind() == Some(kind)
            &&& lost == 0 || lost == all || lost == -all
        }),
{
    let next: u32 = (by + 1) as u32;
    match a {
        ImmView::Int8(x) => {
            assert(x >> (0u32 % 8u32) == x && x << (0u32 % 8u32) == x && x >> (8u32 % 8u32) == x
                && x << (8u32 % 8u32) == x) by (bit_vector);
            assert(2 * (x >> (next % 8u32)) <= (x >> (by % 8u32)) && (x >> (by % 8u32)) <= 2 * (x
                >> (next % 8u32)) + 1) by (bit_vector)
                requires
                    next == by + 1,
                    next < 8,
            ;
            assert(2 * (x << (by % 8u32)) - (x << (next % 8u32)) == 0 || 2 * (x << (by % 8u32)) - (x
                << (next % 8u32)) == 0x100 || 2 * (x << (by % 8u32)) - (x << (next % 8u32))
                == -0x100) by (bit_vector)
                requires
                    next == by + 1,
                    next < 8,
            ;
        },
        ImmView::Int16(x) => {
            assert(x >> (0u32 % 16u32) == x && x << (0u32 % 16u32) == x && x >> (16u32 % 16u32) == x
                && x << (16u32 % 16u32) == x) by (bit_vector);
            assert(2 * (x >> (next % 16u32)) <= (x >> (by % 16u32)) && (x >> (by % 16u32)) <= 2 * (x
                >> (next % 16u32)) + 1) by (bit_vector)
                requires
                    next == by + 1,
                    next < 16,
            ;
            assert(2 * (x << (by % 16u32)) - (x << (next % 16u32)) == 0 || 2 * (x << (by % 16u32)) - (x
                << (next % 16u32)) == 0x10000 || 2 * (x << (by % 16u32)) - (x << (next % 16u32))
                == -0x10000) by (bit_vector)
                requires
                    next == by + 1,
                    next < 16,
            ;
        },
        ImmView::Int32(x) => {
            assert(x >> (0u32 % 32u32) == x && x << (0u32 % 32u32) == x && x >> (32u32 % 32u32) == x
                && x << (32u32 % 32u32) == x) by (bit_vector);
            assert(2 * (x >> (next % 32u32)) <= (x >> (by % 32u32)) && (x >> (by % 32u32)) <= 2 * (x
                >> (next % 32u32)) + 1) by (bit_vector)
                requires
                    next == by + 1,
                    next < 32,
            ;
            assert(2 * (x << (by % 32u32)) - (x << (next % 32u32)) == 0 || 2 * (x << (by % 32u32)) - (x
                << (next % 32u32)) == 0x100000000 || 2 * (x << (by % 32u32)) - (x << (next % 32u32))
                == -0x100000000) by (bit_vector)
                requires
                    next == by + 1,
                    next < 32,
            ;
        },
        ImmView::Int64(x) => {
            assert(x >> (0u32 % 64u32) == x && x << (0u32 % 64u32) == x && x >> (64u32 % 64u32) == x
                && x << (64u32 % 64u32) == x) by (bit_vector);
            assert(2 * (x >> (next % 64u32)) <= (x >> (by % 64u32)) && (x >> (by % 64u32)) <= 2 * (x
                >> (next % 64u32)) + 1) by (bit_vector)
                requires
                    next == by + 1,
                    next < 64,
            ;
            assert(2 * (x << (by % 64u32)) - (x << (next % 64u32)) == 0 || 2 * (x << (by % 64u32)) - (x
                << (next % 64u32)) == 0x10000000000000000 || 2 * (x << (by % 64u32)) - (x << (next % 64u32))
                == -0x10000000000000000) by (bit_vector)
                requires
                    next == by + 1,
                    next < 64,
            ;
        },
        ImmView::Int128(x) => {
            assert(x >> (0u32 % 128u32) == x && x << (0u32 % 128u32) == x
                && x >> (128u32 % 128u32) == x
                && x << (128u32 % 128u32) == x) by (bit_vector);
            assert(2 * (x >> (next % 128u32)) <= (x >> (by % 128u32))
                && (x >> (by % 128u32)) <= 2 * (x
                >> (next % 128u32)) + 1) by (bit_vector)
                requires
                    next == by + 1,
                    next < 128,
            ;
            assert(2 * (x << (by % 128u32)) - (x << (next % 128u32)) == 0 || 2 * (x << (by % 128u32)) - (x
                << (next % 128u32)) == 0x100000000000000000000000000000000 || 2 * (x << (by % 128u32)) - (x << (next % 128u32))
                == -0x100000000000000000000000000000000) by (bit_vector)
                requires
                    next == by + 1,
                    next < 128,
            ;
        },
        ImmView::Uint8(x) => {
            assert(x >> (0u32 % 8u32) == x && x << (0u32 % 8u32) == x && x >> (8u32 % 8u32) == x
                && x << (8u32 % 8u32) == x) by (bit_vector);
            assert(2 * (x >> (next % 8u32)) <= (x >> (by % 8u32)) && (x >> (by % 8u32)) <= 2 * (x
                >> (next % 8u32)) + 1) by (bit_vector)
                requires
                    next == by + 1,
                    next < 8,
            ;
            assert(2 * (x << (by % 8u32)) - (x << (next % 8u32)) == 0 || 2 * (x << (by % 8u32)) - (x
                << (next % 8u32)) == 0x100 || 2 * (x << (by % 8u32)) - (x << (next % 8u32))
                == -0x100) by (bit_vector)
                requires
                    next == by + 1,
                    next < 8,
            ;
        },
        ImmView::Uint16(x) => {
            assert(x >> (0u32 % 16u32) == x && x << (0u32 % 16u32) == x && x >> (16u32 % 16u32) == x
                && x << (16u32 % 16u32) == x) by (bit_vector);
            assert(2 * (x >> (next % 16u32)) <= (x >> (by % 16u32)) && (x >> (by % 16u32)) <= 2 * (x
                >> (next % 16u32)) + 1) by (bit_vector)
                requires
                    next == by + 1,
                    next < 16,
            ;
            assert(2 * (x << (by % 16u32)) - (x << (next % 16u32)) == 0 || 2 * (x << (by % 16u32)) - (x
                << (next % 16u32)) == 0x10000 || 2 * (x << (by % 16u32)) - (x << (next % 16u32))
                == -0x10000) by (bit_vector)
                requires
                    next == by + 1,
                    next < 16,
            ;
        },
        ImmView::Uint32(x) => {
            assert(x >> (0u32 % 32u32) == x && x << (0u32 % 32u32) == x && x >> (32u32 % 32u32) == x
                && x << (32u32 % 32u32) == x) by (bit_vector);
            assert(2 * (x >> (next % 32u32)) <= (x >> (by % 32u32)) && (x >> (by % 32u32)) <= 2 * (x
                >> (next % 32u32)) + 1) by (bit_vector)
                requires
                    next == by + 1,
                    next < 32,
            ;
            assert(2 * (x << (by % 32u32)) - (x << (next % 32u32)) == 0 || 2 * (x << (by % 32u32)) - (x
                << (next % 32u32)) == 0x100000000 || 2 * (x << (by % 32u32)) - (x << (next % 32u32))
                == -0x100000000) by (bit_vector)
                requires
                    next == by + 1,
                    next < 32,
            ;
        },
        ImmView::Uint64(x) => {
            assert(x >> (0u32 % 64u32) == x && x << (0u32 % 64u32) == x && x >> (64u32 % 64u32) == x
                && x << (64u32 % 64u32) == x) by (bit_vector);
            assert(2 * (x >> (next % 64u32)) <= (x >> (by % 64u32)) && (x >> (by % 64u32)) <= 2 * (x
                >> (next % 64u32)) + 1) by (bit_vector)
                requires
                    next == by + 1,
                    next < 64,
            ;
            assert(2 * (x << (by % 64u32)) - (x << (next % 64u32)) == 0 || 2 * (x << (by % 64u32)) - (x
                << (next % 64u32)) == 0x10000000000000000 || 2 * (x << (by % 64u32)) - (x << (next % 64u32))
                == -0x10000000000000000) by (bit_vector)
                requires
                    next == by + 1,
                    next < 64,
            ;
        },
        ImmView::Uint128(x) => {
            assert(x >> (0u32 % 128u32) == x && x << (0u32 % 128u32) == x
                && x >> (128u32 % 128u32) == x
                && x << (128u32 % 128u32) == x) by (bit_vector);
            assert(2 * (x >> (next % 128u32)) <= (x >> (by % 128u32))
                && (x >> (by % 128u32)) <= 2 * (x
                >> (next % 128u32)) + 1) by (bit_vector)
                requires
                    next == by + 1,
                    next < 128,
            ;
            assert(2 * (x << (by % 128u32)) - (x << (next % 128u32)) == 0 || 2 * (x << (by % 128u32)) - (x
                << (next % 128u32)) == 0x100000000000000000000000000000000 || 2 * (x << (by % 128u32)) - (x << (next % 128u32))
                == -0x100000000000000000000000000000000) by (bit_vector)
                requires
                    next == by + 1,
                    next < 128,
            ;
        },
        _ => {},
    }
}

/// The evaluation of `&`, `|` and `^` on two integers of one type gives their common bits, the
/// bits of either and the bits of just one.
pub proof fn law_evaluated_bits(
    s: AnalyzerView,
    node: ContextView,
    line: Span,
    lhs: ContextView,
    rhs: ContextView,
    taipe: TypeView,
    kind: IntKind,
    a: int,
    b: int,
    fuel: int,
)
    requires
        fuel > 0,
        gives_int(s, lhs, fuel - 1, taipe, kind, a),
        gives_int(s, rhs, fuel - 1, taipe, kind, b),
    ensures
        ({
            let x = s.compeval_context(lhs, fuel - 1)->Ok_0.value->Imm_0;
            let y = s.compeval_context(rhs, fuel - 1)->Ok_0.value->Imm_0;
            let r = s.compeval_context(node, fuel);
            let (l, h) = (Box::new(lhs), Box::new(rhs));
            &&& node.value == (ValueView::BitAnd { line_info: line, lhs: l, rhs: h }) ==> r == Ok::<
                _,
                StopView,
            >(ContextView::make(false, taipe, ValueView::Imm(x.bit_and(y))))
            &&& node.value == (ValueView::BitOr { line_info: line, lhs: l, rhs: h }) ==> r == Ok::<
                _,
                StopView,
            >(ContextView::make(false, taipe, ValueView::Imm(x.bit_or(y))))
            &&& node.value == (ValueView::BitXor { line_info: line, lhs: l, rhs: h }) ==> r == Ok::<
                _,
                StopView,
            >(ContextView::make(false, taipe, ValueView::Imm(x.bit_xor(y))))
        }),
{
    reveal(AnalyzerView::compeval_context);
    reveal(AnalyzerView::compeval_trivial_impl);
    reveal(AnalyzerView::compeval_pair);
    reveal(AnalyzerView::fold_bits);
    let x = s.compeval_context(lhs, fuel - 1)->Ok_0;
    let y = s.compeval_context(rhs, fuel - 1)->Ok_0;
    lemma_signs(x.taipe, kind);
    assert(s.compeval_pair(lhs, rhs, fuel - 1) == Ok::<_, StopView>((x, y)));
    assert(s.compeval_context(node, fuel) == s.compeval_trivial_impl(
        node.is_lvalue,
        node.taipe,
        node.value,
        fuel,
    ));
}

/// The evaluation of `<<` and `>>` shifts the left operand by as many bits as the right one says.
pub proof fn law_evaluated_shift(
    s: AnalyzerView,
    node: ContextView,
    line: Span,
    lhs: ContextView,
    rhs: ContextView,
    taipe: TypeView,
    kind: IntKind,
    a: int,
    by: u32,
    fuel: int,
)
    requires
        fuel > 0,
        gives_int(s, lhs, fuel - 1, taipe, kind, a),
        s.compeval_context(rhs, fuel - 1) matches Ok(r) && r.taipe == TypeView::Uint32 && r.value
            == ValueView::Imm(ImmView::Uint32(by)),
    ensures
        ({
            let x = s.compeval_context(lhs, fuel - 1)->Ok_0.value->Imm_0;
            let r = s.compeval_context(node, fuel);
            let (l, h) = (Box::new(lhs), Box::new(rhs));
            &&& node.value == (ValueView::Shl { line_info: line, lhs: l, rhs: h }) ==> r == Ok::<
                _,
                StopView,
            >(ContextView::make(false, taipe, ValueView::Imm(x.shl(ImmView::Uint32(by)))))
            &&& node.value == (ValueView::Shr { line_info: line, lhs: l, rhs: h }) ==> r == Ok::<
                _,
                StopView,
            >(ContextView::make(false, taipe, ValueView::Imm(x.shr(ImmView::Uint32(by)))))
        }),
{
    reveal(AnalyzerView::compeval_context);
    reveal(AnalyzerView::compeval_trivial_impl);
    reveal(AnalyzerView::compeval_pair);
    reveal(AnalyzerView::fold_shift);
    let x = s.compeval_context(lhs, fuel - 1)->Ok_0;
    let y = s.compeval_context(rhs, fuel - 1)->Ok_0;
    lemma_signs(x.taipe, kind);
    assert(s.compeval_pair(lhs, rhs, fuel - 1) == Ok::<_, StopView>((x, y)));
    assert(s.compeval_context(node, fuel) == s.compeval_trivial_impl(
        node.is_lvalue,
        node.taipe,
        node.value,
        fuel,
    ));
}

proof fn lemma_block_last(s: AnalyzerView, ctxs: Seq<ContextView>, fuel: int, i: int)
    requires
        0 <= i < ctxs.len(),
    ensures
        s.compeval_block(ctxs, fuel, i) is Ok ==> s.compeval_block(ctxs, fuel, i)
            == s.compeval_context(ctxs.last(), fuel),
    decreases ctxs.len() - i,
{
    reveal(AnalyzerView::compeval_block);
    reveal(AnalyzerView::compeval_context);
    if i + 1 < ctxs.len() {
        lemma_block_last(s, ctxs, fuel, i + 1);
    }
}

/// The evaluation of a block gives what its last part gives.
pub proof fn law_evaluated_block(
    s: AnalyzerView,
    node: ContextView,
    ctxs: Seq<ContextView>,
    fuel: int,
)
    requires
        fuel > 0,
        ctxs.len() > 0,
        node.value == ValueView::Block(ctxs),
    ensures
        s.compeval_context(node, fuel) is Ok ==> s.compeval_context(node, fuel)
            == s.compeval_context(ctxs.last(), fuel - 1),
{
    reveal(AnalyzerView::compeval_context);
    reveal(AnalyzerView::compeval_trivial_impl);
    reveal(AnalyzerView::compeval_block);
    lemma_block_last(s, ctxs, fuel - 1, 0);
    assert(s.compeval_context(node, fuel) == s.compeval_trivial_impl(
        node.is_lvalue,
        node.taipe,
        node.value,
        fuel,
    ));
}

/// A global constant is evaluated to its value, and a global variable cannot be evaluated.
pub proof fn law_evaluated_global(
    s: AnalyzerView,
    node: ContextView,
    line: Span,
    scope_id: ScopeIdView,
    fuel: int,
)
    requires
        fuel > 0,
        node.value == (ValueView::GetGlobal { line_info: line, scope_id }),
        0 <= scope_id.index < s.scopes.len(),
    ensures
        ({
            let scope = s.scopes[scope_id.index];
            &&& (scope.kind == ScopeKind::Const && scope.payload is Global
                && scope.payload->Global_0.value is Imm) ==> s.compeval_context(node, fuel) == Ok::<
                _,
                StopView,
            >(scope.payload->Global_0)
            &&& scope.kind != ScopeKind::Const ==> s.compeval_context(node, fuel) is Err
        }),
{
    reveal(AnalyzerView::compeval_context);
    reveal(AnalyzerView::compeval_trivial_impl);
    reveal(AnalyzerView::global_value);
    assert(s.compeval_context(node, fuel) == s.compeval_trivial_impl(
        node.is_lvalue,
        node.taipe,
        node.value,
        fuel,
    ));
}

} // verus!
