use vstd::prelude::*;

use crate::analyzer::meaning_laws::{
    assigned_from, expr_means, law_analysis_keeps_meaning, lemma_assigned, type_means,
};
use crate::analyzer::analysis::{is_size, signed_of, unsigned_of};
use crate::analyzer::exprs::{append_digits, literal_float};
use crate::analyzer::AnalyzerView;
use crate::ast;
use crate::ast::{DeclView, ExprView};
use crate::cfg::{ControlInfoView, ControlNodeView};
use crate::common::{Span, StopView};
use crate::context::{
    kind_max, kind_min, ContextView, FloatView, ImmView, IntKind, TypeView, ValueView,
};
use crate::scope::{PayloadView, ScopeIdView, ScopeKind};
use crate::text::decimal;
use crate::token::{TokenValueView, TokenView};

verus! {

/// Whether a value is the one that is zero in a type, or all of whose items are.
#[verifier::opaque]
pub open spec fn is_zero(t: TypeView, value: ValueView) -> bool
    decreases t,
{
    match t {
        TypeView::Bool => value == ValueView::Imm(ImmView::Bool(false)),
        TypeView::Char => value matches ValueView::Imm(ImmView::Char(c)) && c as int == 0,
        TypeView::Float32 => value == ValueView::Imm(
            ImmView::Float32(FloatView::FromUnsigned(0)),
        ),
        TypeView::Float64 => value == ValueView::Imm(
            ImmView::Float64(FloatView::FromUnsigned(0)),
        ),
        TypeView::Const(inner) => is_zero(*inner, value),
        TypeView::Array { count, taipe } => {
            &&& value is Array
            &&& value->Array_0.len() == count
            &&& forall|k: int|
                0 <= k < value->Array_0.len() ==> is_zero(*taipe, #[trigger] value->Array_0[k])
        },
        TypeView::Tuple(items) => {
            &&& value is Tuple
            &&& value->Tuple_0.len() == items.len()
            &&& forall|k: int|
                0 <= k < items.len() ==> is_zero(#[trigger] items[k], value->Tuple_0[k])
        },
        _ => {
            &&& t.int_kind() is Some
            &&& value is Imm
            &&& value->Imm_0.int_kind() == t.int_kind()
            &&& value->Imm_0.int_value() == 0
        },
    }
}

#[verifier::spinoff_prover]
proof fn lemma_plain_value(
    s: AnalyzerView,
    top: TypeView,
    t: TypeView,
    line: Span,
    what: Seq<char>,
)
    ensures
        s.get_plain_value(top, t, line, what) matches Ok(ctx) ==> is_zero(t, ctx.value),
    decreases t, 0int, 0int,
{
    reveal(AnalyzerView::get_plain_value);
    reveal(AnalyzerView::more_plain_values);
    reveal(is_zero);
    match t {
        TypeView::Const(inner) => {
            lemma_plain_value(s, top, *inner, line, what);
        },
        TypeView::Array { count: _, taipe } => {
            lemma_plain_value(s, top, *taipe, line, what);
        },
        TypeView::Tuple(items) => {
            lemma_plain_values(s, top, items, line, what, seq![], 0);
        },
        _ => {},
    }
}

#[verifier::spinoff_prover]
proof fn lemma_plain_values(
    s: AnalyzerView,
    top: TypeView,
    items: Seq<TypeView>,
    line: Span,
    what: Seq<char>,
    values: Seq<ValueView>,
    i: int,
)
    requires
        0 <= i <= items.len(),
        values.len() == i,
        forall|k: int| 0 <= k < i ==> is_zero(#[trigger] items[k], values[k]),
    ensures
        s.more_plain_values(top, items, line, what, values, i) matches Ok(value) ==> {
            &&& value is Tuple
            &&& value->Tuple_0.len() == items.len()
            &&& forall|k: int|
                0 <= k < items.len() ==> is_zero(#[trigger] items[k], value->Tuple_0[k])
        },
    decreases items, 0int, items.len() - i,
{
    reveal(AnalyzerView::more_plain_values);
    reveal(AnalyzerView::get_plain_value);
    if i < items.len() {
        lemma_plain_value(s, top, items[i], line, what);
        if let Ok(item) = s.get_plain_value(top, items[i], line, what) {
            let more = values.push(item.value);
            assert forall|k: int| 0 <= k < i + 1 implies is_zero(#[trigger] items[k], more[k]) by {
                if k < i {
                    assert(more[k] == values[k]);
                }
            }
            lemma_plain_values(s, top, items, line, what, more, i + 1);
        }
    }
}

/// The value that a type has where none is given, and the value that is nothing in it, are zero:
/// false, the number zero, or zero in each item.
pub proof fn law_plain_values_are_zero(s: AnalyzerView, t: TypeView, line: Span)
    ensures
        s.get_default_value(t, line) matches Ok(ctx) ==> is_zero(t, ctx.value),
        s.get_zero_value(t, line) matches Ok(ctx) ==> is_zero(t, ctx.value),
{
    reveal(AnalyzerView::get_default_value);
    reveal(AnalyzerView::get_zero_value);
    lemma_plain_value(s, t, t, line, "default"@);
    lemma_plain_value(s, t, t, line, "zero"@);
}

/// The number that an immediate integer stands for, with or without a type.
pub open spec fn number_in(imm: ImmView) -> int {
    match imm {
        ImmView::VarInt(n) => n,
        _ => imm.int_value(),
    }
}

#[verifier::spinoff_prover]
proof fn lemma_varint_number(
    s: AnalyzerView,
    t: TypeView,
    imm: ImmView,
    line: Span,
    shown_as: Option<Seq<char>>,
)
    ensures
        s.transform_varint(t, imm, line, shown_as) matches Ok(r) ==> (r.int_kind() is Some
            ==> r.int_value() == number_in(imm) && imm is VarInt),
    decreases t,
{
    reveal(AnalyzerView::transform_varint);
    if let TypeView::Const(inner) = t {
        lemma_varint_number(s, *inner, imm, line, shown_as);
    }
}

/// An integer that is given another type keeps its number.
#[verifier::spinoff_prover]
pub proof fn law_number_kept(
    s: AnalyzerView,
    t: TypeView,
    imm: ImmView,
    line: Span,
    shown_as: Option<Seq<char>>,
)
    ensures
        s.transform_imm(t, imm, line, shown_as) matches Ok(r) ==> (r.int_kind() is Some
            ==> r.int_value() == number_in(imm)),
    decreases t,
{
    reveal(AnalyzerView::transform_imm);
    if let TypeView::Const(inner) = t {
        law_number_kept(s, *inner, imm, line, shown_as);
    } else {
        lemma_varint_number(s, t, imm, line, shown_as);
    }
}

/// The length of an array is the number that is written for it.
#[verifier::spinoff_prover]
pub proof fn law_array_length(s: AnalyzerView, length: ContextView, line: Span)
    ensures
        s.array_length(length, line) matches Ok(count) ==> {
            &&& length.taipe.is_unsigned_integer()
            &&& length.value matches ValueView::Imm(imm)
            &&& count == number_in(imm)
        },
{
    reveal(AnalyzerView::array_length);
    reveal(AnalyzerView::transform_imm_to_usize);
    if let ValueView::Imm(imm) = length.value {
        law_number_kept(s, s.usize_type(), imm, line, Some("usize"@));
    }
}

/// An item of a tuple is the one at the place that is written after the point: its type is the one
/// at this place, constant in a tuple that is, and its value is found there.
#[verifier::spinoff_prover]
pub proof fn law_tuple_member(
    s: AnalyzerView,
    node: ExprView,
    name: TokenView,
    items: Seq<TypeView>,
    keep_const: bool,
    ctx: ContextView,
)
    ensures
        s.tuple_member(node, name, items, keep_const, ctx) matches Ok(r) ==> {
            &&& name.value matches Some(TokenValueView::Int { integral, suffix })
            &&& suffix is None
            &&& 0 <= integral < items.len()
            &&& r.is_lvalue == ctx.is_lvalue
            &&& r.taipe == if keep_const {
                items[integral].add_const()
            } else {
                items[integral]
            }
            &&& r.value matches ValueView::Index { line_info: _, lhs, index }
            &&& lhs.value == ctx.value
            &&& index.value matches ValueView::Imm(imm)
            &&& imm.int_kind() is Some ==> imm.int_value() == integral
        },
{
    reveal(AnalyzerView::tuple_member);
    reveal(AnalyzerView::transform_varint_to_usize);
    if let Some(TokenValueView::Int { integral, suffix: _ }) = name.value {
        lemma_varint_number(
            s,
            s.usize_type(),
            ImmView::VarInt(integral),
            name.line_info,
            Some("usize"@),
        );
    }
}

/// How the name of the type of a kind of integers is written in the language.
pub open spec fn kind_name(kind: IntKind) -> Seq<char> {
    match kind {
        IntKind::Int8 => "__i8"@,
        IntKind::Int16 => "__i16"@,
        IntKind::Int32 => "__i32"@,
        IntKind::Int64 => "__i64"@,
        IntKind::Int128 => "__i128"@,
        IntKind::Uint8 => "__u8"@,
        IntKind::Uint16 => "__u16"@,
        IntKind::Uint32 => "__u32"@,
        IntKind::Uint64 => "__u64"@,
        IntKind::Uint128 => "__u128"@,
    }
}

/// The names of the language stand for the types that they name, and no other name stands for a
/// type of its own.
#[verifier::spinoff_prover]
pub proof fn law_builtin_types(s: AnalyzerView, name: Seq<char>, kind: IntKind)
    ensures
        s.builtin_type(kind_name(kind)) matches Some(t) && t.int_kind() == Some(kind),
        s.builtin_type("__bool"@) == Some(TypeView::Bool),
        s.builtin_type("__char"@) == Some(TypeView::Char),
        s.builtin_type("__f32"@) == Some(TypeView::Float32),
        s.builtin_type("__f64"@) == Some(TypeView::Float64),
        s.builtin_type("__int"@) == Some(s.int_type()),
        s.builtin_type("__uint"@) == Some(s.uint_type()),
        s.builtin_type("__isize"@) == Some(s.isize_type()),
        s.builtin_type("__usize"@) == Some(s.usize_type()),
        s.builtin_type(name) is Some ==> name.len() > 2 && name[0] == '_' && name[1] == '_',
{
    reveal(AnalyzerView::builtin_type);
    reveal_strlit("__bool");
    reveal_strlit("__char");
    reveal_strlit("__i8");
    reveal_strlit("__i16");
    reveal_strlit("__i32");
    reveal_strlit("__i64");
    reveal_strlit("__i128");
    reveal_strlit("__int");
    reveal_strlit("__isize");
    reveal_strlit("__u8");
    reveal_strlit("__u16");
    reveal_strlit("__u32");
    reveal_strlit("__u64");
    reveal_strlit("__u128");
    reveal_strlit("__uint");
    reveal_strlit("__usize");
    reveal_strlit("__f32");
    reveal_strlit("__f64");
    assert("__i8"@[3] == '8');
    assert("__u8"@[3] == '8');
    assert("__i16"@[3] == '1' && "__i16"@[2] == 'i');
    assert("__i32"@[3] == '3' && "__i32"@[2] == 'i');
    assert("__i64"@[3] == '6' && "__i64"@[2] == 'i');
    assert("__i128"@[2] == 'i' && "__i128"@[3] == '1');
    assert("__int"@[3] == 'n' && "__int"@[2] == 'i');
    assert("__isize"@[2] == 'i');
    assert("__u16"@[3] == '1' && "__u16"@[2] == 'u');
    assert("__u32"@[3] == '3' && "__u32"@[2] == 'u');
    assert("__u64"@[3] == '6' && "__u64"@[2] == 'u');
    assert("__u128"@[2] == 'u' && "__u128"@[3] == '1');
    assert("__uint"@[2] == 'u' && "__uint"@[3] == 'i');
    assert("__usize"@[2] == 'u');
    assert("__bool"@[2] == 'b');
    assert("__char"@[2] == 'c');
    assert("__f32"@[2] == 'f' && "__f32"@[3] == '3');
    assert("__f64"@[2] == 'f' && "__f64"@[3] == '6');
    assert("__i8"@[2] == 'i' && "__u8"@[2] == 'u');
    assert("__i16"@[4] == '6' && "__i128"@[4] == '2');
    assert("__u16"@[4] == '6' && "__u128"@[4] == '2');
    match kind {
        IntKind::Int8 => {
            assert(s.builtin_type("__i8"@) == Some(TypeView::Int8));
        },
        IntKind::Int16 => {
            assert(s.builtin_type("__i16"@) == Some(TypeView::Int16));
        },
        IntKind::Int32 => {
            assert(s.builtin_type("__i32"@) == Some(TypeView::Int32));
        },
        IntKind::Int64 => {
            assert(s.builtin_type("__i64"@) == Some(TypeView::Int64));
        },
        IntKind::Int128 => {
            assert(s.builtin_type("__i128"@) == Some(TypeView::Int128));
        },
        IntKind::Uint8 => {
            assert(s.builtin_type("__u8"@) == Some(TypeView::Uint8));
        },
        IntKind::Uint16 => {
            assert(s.builtin_type("__u16"@) == Some(TypeView::Uint16));
        },
        IntKind::Uint32 => {
            assert(s.builtin_type("__u32"@) == Some(TypeView::Uint32));
        },
        IntKind::Uint64 => {
            assert(s.builtin_type("__u64"@) == Some(TypeView::Uint64));
        },
        IntKind::Uint128 => {
            assert(s.builtin_type("__u128"@) == Some(TypeView::Uint128));
        },
    }
}

proof fn lemma_insert_keeps(s: AnalyzerView, node: ControlNodeView, i: int)
    requires
        0 <= i < s.scopes.len(),
        !(s.scopes[i].payload is Block),
    ensures
        s.flow_insert(node).0.scopes.len() == s.scopes.len(),
        s.flow_insert(node).0.scopes[i] == s.scopes[i],
{
    reveal(AnalyzerView::flow_insert);
}

#[verifier::spinoff_prover]
proof fn lemma_finish_decl(
    s: AnalyzerView,
    node: DeclView,
    id: ScopeIdView,
    ctx: ContextView,
    assigned: bool,
)
    requires
        0 <= id.index < s.scopes.len(),
    ensures
        s.finish_decl(node, id, ctx, assigned) matches (t, Ok(r)) ==> {
            &&& r == id
            &&& holds_declared(t, id, ctx)
        },
{
    reveal(AnalyzerView::finish_decl);
    reveal(AnalyzerView::record_decl);
    reveal(AnalyzerView::value_kind);
    reveal(AnalyzerView::value_payload);
    let kind = s.value_kind(ctx.taipe);
    let s1 = s.set_kind(id, kind);
    let s2 = s1.set_payload(id, s1.value_payload(ctx));
    let declared = ControlNodeView::Info(ControlInfoView::VarDeclared { scope_id: id });
    lemma_insert_keeps(s2, declared, id.index);
    let s3 = s2.flow_insert(declared).0;
    if let Ok(line) = node.line() {
        let set = ControlNodeView::Info(
            ControlInfoView::VarAssigned { line_info: line, scope_id: id },
        );
        lemma_insert_keeps(s3, set, id.index);
    }
}

/// Whether what is known of a scope is that it is declared with a value: a constant or a variable
/// by its type, with the value outside of functions, and with the type alone inside of them.
pub open spec fn holds_declared(t: AnalyzerView, id: ScopeIdView, ctx: ContextView) -> bool {
    let scope = t.scopes[id.index];
    &&& id.index < t.scopes.len()
    &&& ctx.taipe.is_typedef() ==> scope.kind == ScopeKind::Typedef
    &&& !ctx.taipe.is_typedef() ==> {
        &&& scope.kind == if ctx.taipe.is_const() {
            ScopeKind::Const
        } else {
            ScopeKind::Variable
        }
        &&& scope.payload == PayloadView::Global(ctx) || scope.payload == PayloadView::Local(
            ctx.taipe,
        )
    }
}

/// Any values of a declaration.
pub open spec fn some_values(inner: ContextView, known: ContextView, ctx: ContextView) -> bool {
    true
}

/// A variable or a constant holds the value of the expression that is written for it, and has the
/// type that is written for it, or that of the value. Outside of functions the value is evaluated.
#[verifier::spinoff_prover]
pub proof fn law_value_declared(
    s: AnalyzerView,
    node: DeclView,
    id: ScopeIdView,
    lhs: Option<(TypeView, Span)>,
    eq_token: Option<TokenView>,
    expr: ExprView,
    fuel: int,
)
    requires
        0 <= id.index < s.visit_expr(expr, fuel).0.scopes.len(),
    ensures
        s.visit_value(node, id, lhs, eq_token, expr, fuel) matches (t, Ok(r)) ==> {
            &&& r == id
            &&& exists|inner: ContextView, known: ContextView, ctx: ContextView| #[trigger]
                some_values(inner, known, ctx) && expr_means(expr, inner) && (known == inner
                    || s.visit_expr(expr, fuel).0.compeval_trivial(inner) == Ok::<_, StopView>(
                    known,
                )) && assigned_from(known, ctx) && (lhs matches Some((taipe, _)) ==> ctx.taipe
                    == taipe || ctx.taipe == taipe.remove_const().add_const()) && holds_declared(
                    t,
                    id,
                    ctx,
                )
        },
{
    reveal(AnalyzerView::visit_value);
    reveal(AnalyzerView::visit_expr);
    reveal(AnalyzerView::global_rhs);
    law_analysis_keeps_meaning(s, expr, arbitrary(), arbitrary(), fuel);
    if let ((u, Ok(inner)), Ok(line)) = (s.visit_expr(expr, fuel), expr.line()) {
        if let Ok(known) = u.global_rhs(inner) {
            lemma_assigned(u, lhs, eq_token, known, line);
            if let Ok(ctx) = u.resolve_assign(lhs, eq_token, Some((known, line))) {
                lemma_finish_decl(u, node, id, ctx, true);
                assert(some_values(inner, known, ctx));
            }
        }
    }
}

/// What is declared without a value has the type that is written for it, which is not constant.
#[verifier::spinoff_prover]
pub proof fn law_plain_declared(
    s: AnalyzerView,
    node: DeclView,
    id: ScopeIdView,
    annotation: ast::TypeView,
    fuel: int,
)
    requires
        0 <= id.index < s.visit_type(annotation, fuel).0.scopes.len(),
    ensures
        s.visit_plain_decl(node, id, annotation, fuel) matches (t, Ok(r)) ==> {
            &&& r == id
            &&& s.visit_type(annotation, fuel).1 matches Ok(taipe)
            &&& type_means(annotation, taipe)
            &&& !taipe.is_const()
            &&& holds_declared(t, id, ContextView::make(false, taipe, ValueView::from_nil()))
        },
{
    reveal(AnalyzerView::visit_plain_decl);
    reveal(AnalyzerView::visit_type);
    reveal(AnalyzerView::resolve_assign);
    law_analysis_keeps_meaning(s, arbitrary(), annotation, arbitrary(), fuel);
    if let (u, Ok(taipe)) = s.visit_type(annotation, fuel) {
        lemma_finish_decl(
            u,
            node,
            id,
            ContextView::make(false, taipe, ValueView::from_nil()),
            false,
        );
    }
}

/// A type that is declared is the one that is written.
#[verifier::spinoff_prover]
pub proof fn law_type_declared(
    s: AnalyzerView,
    id: ScopeIdView,
    taipe: Option<ast::TypeView>,
    target: ast::TypeView,
    fuel: int,
)
    ensures
        s.visit_typedef(id, taipe, target, fuel) matches (t, Ok(r)) ==> r == id && (0 <= id.index
            < t.scopes.len() ==> (t.scopes[id.index].payload matches PayloadView::Typedef(found)
            && type_means(target, found))),
{
    reveal(AnalyzerView::visit_typedef);
    reveal(AnalyzerView::visit_type);
    reveal(AnalyzerView::annotation_errors);
    if let (u, Ok(errs)) = s.annotation_errors(taipe, target, fuel) {
        law_analysis_keeps_meaning(u, arbitrary(), target, arbitrary(), fuel);
    }
}

/// Ten times ten, and so on.
pub open spec fn power_of_ten(n: nat) -> int
    decreases n,
{
    if n == 0 {
        1
    } else {
        10 * power_of_ten((n - 1) as nat)
    }
}

proof fn lemma_one_digit_more(value: int, digits: Seq<char>, c: char, i: int)
    requires
        0 <= i <= digits.len(),
    ensures
        append_digits(value, digits.push(c), i) == append_digits(value, digits, i) * 10 + (c as int
            - '0' as int),
    decreases digits.len() - i,
{
    if i < digits.len() {
        assert(digits.push(c)[i] == digits[i]);
        lemma_one_digit_more(value * 10 + (digits[i] as int - '0' as int), digits, c, i + 1);
    } else {
        let more = digits.push(c);
        assert(append_digits(value * 10 + (c as int - '0' as int), more, i + 1) == value * 10 + (
        c as int - '0' as int));
    }
}

proof fn lemma_appended(value: int, n: nat)
    ensures
        append_digits(value, decimal(n), 0) == value * power_of_ten(decimal(n).len()) + n,
        decimal(n).len() > 0,
        n < power_of_ten(decimal(n).len()),
        n > 0 ==> power_of_ten((decimal(n).len() - 1) as nat) <= n,
    decreases n,
{
    let d = decimal(n);
    if n < 10 {
        assert(d.len() == 1);
        lemma_one_digit_more(value, Seq::<char>::empty(), d[0], 0);
        assert(Seq::<char>::empty().push(d[0]) =~= d);
        assert(append_digits(value, Seq::<char>::empty(), 0) == value);
        assert(power_of_ten(0) == 1);
        assert(power_of_ten(1) == 10);
    } else {
        let head = decimal(n / 10);
        lemma_appended(value, n / 10);
        lemma_one_digit_more(value, head, d.last(), 0);
        assert(head.push(d.last()) =~= d);
        let k = head.len();
        assert(d.len() == k + 1);
        assert(power_of_ten(k + 1) == 10 * power_of_ten(k));
        assert(power_of_ten(k) == 10 * power_of_ten((k - 1) as nat));
        assert((value * power_of_ten(k) + n / 10) * 10 == value * (10 * power_of_ten(k)) + (n / 10)
            * 10) by (nonlinear_arith);
    }
}

/// The floating point number of a literal is the number before the point and the one after it,
/// written behind each other, with the point as many places from the end as the latter has, moved
/// by the exponent.
pub proof fn law_float_literal(integral: int, fractional: int, exponent: i64)
    ensures
        literal_float(integral, fractional, exponent) matches Some(r) ==> {
            let n = decimal(fractional as nat).len();
            &&& r matches FloatView::Decimal { digits, scale }
            &&& digits == integral * power_of_ten(n) + fractional
            &&& scale == n - exponent
            &&& 0 <= fractional < power_of_ten(n)
            &&& fractional > 0 ==> power_of_ten((n - 1) as nat) <= fractional
        },
{
    if fractional >= 0 {
        lemma_appended(integral, fractional as nat);
    }
}

/// An integer type of a number of bytes has as many values as these bytes can take, and a signed
/// one has half of them below zero.
pub proof fn law_sized_types(bytes: usize)
    requires
        is_size(bytes),
    ensures
        signed_of(bytes).int_kind() matches Some(kind) && kind_max(kind) - kind_min(kind) + 1
            == vstd::arithmetic::power::pow(256, bytes as nat) && kind_min(kind) == -kind_max(kind)
            - 1,
        unsigned_of(bytes).int_kind() matches Some(kind) && kind_max(kind) + 1
            == vstd::arithmetic::power::pow(256, bytes as nat) && kind_min(kind) == 0,
{
    reveal_with_fuel(vstd::arithmetic::power::pow, 18);
}

} // verus!
