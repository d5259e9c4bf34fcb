use vstd::arithmetic::power::pow;
use vstd::prelude::*;

use crate::codegen::{
    children_code, ctx_code, ctxs_code, fun_code, fun_sig, imm_ins, joined_code,
    law_generated_code_goes_on, machine_type, param_types, scope_code, BinaryIns,
    ClType, CodeView, FunCodeView, InsView,
};
use crate::common::StopView;
use crate::context::{
    kind_max, kind_min, ContextView, ImmView, IntKind, ParamView, TypeView, ValueView,
};
use crate::scope::{ScopeIdView, ScopeKind, ScopeView};

verus! {

/// What an instruction with two operands computes of two integers. Machine integers wrap around,
/// which is left out here: what is computed is right up to that.
pub open spec fn machine_result(op: BinaryIns, x: int, y: int) -> int {
    match op {
        BinaryIns::Iadd => x + y,
        BinaryIns::Isub => x - y,
        BinaryIns::Imul => x * y,
        BinaryIns::Ishl => ((x as i64) << (y as i64)) as int,
        BinaryIns::Ushr => ((x as u64) >> (y as u64)) as int,
        BinaryIns::Sshr => ((x as i64) >> (y as i64)) as int,
        BinaryIns::Band => ((x as i64) & (y as i64)) as int,
        BinaryIns::Bxor => ((x as i64) ^ (y as i64)) as int,
        BinaryIns::Bor => ((x as i64) | (y as i64)) as int,
    }
}

/// The integer that the instruction at a place computes, if it computes one.
pub open spec fn machine_value(ins: Seq<InsView>, place: int) -> Option<int>
    decreases place,
{
    if place < 0 || place >= ins.len() {
        None
    } else {
        match ins[place] {
            InsView::Iconst { taipe: _, value } => Some(value as int),
            InsView::Ineg(v) => if v < place {
                match machine_value(ins, v as int) {
                    Some(x) => Some(-x),
                    None => None,
                }
            } else {
                None
            },
            InsView::Bnot(v) => if v < place {
                match machine_value(ins, v as int) {
                    Some(x) => Some(-1 - x),
                    None => None,
                }
            } else {
                None
            },
            InsView::Binary { op, lhs, rhs } => if lhs < place && rhs < place {
                match (machine_value(ins, lhs as int), machine_value(ins, rhs as int)) {
                    (Some(x), Some(y)) => Some(machine_result(op, x, y)),
                    _ => None,
                }
            } else {
                None
            },
            _ => None,
        }
    }
}

/// The integer that an expression means, if it means one that a machine word can hold.
pub open spec fn meaning(ctx: ContextView) -> Option<int>
    decreases ctx,
{
    match ctx.value {
        ValueView::Imm(imm) => if imm.int_kind() is Some && i64::MIN <= imm.int_value()
            <= i64::MAX {
            Some(imm.int_value())
        } else {
            match imm {
                ImmView::Bool(b) => Some(
                    if b {
                        1
                    } else {
                        0
                    },
                ),
                ImmView::Char(c) => Some(c as int),
                _ => None,
            }
        },
        ValueView::Negate { line_info: _, ctx: operand } => match meaning(*operand) {
            Some(x) => if operand.taipe.is_float() {
                None
            } else {
                Some(-x)
            },
            None => None,
        },
        ValueView::FlipBits { line_info: _, ctx: operand } => match meaning(*operand) {
            Some(x) => Some(-1 - x),
            None => None,
        },
        ValueView::Add { line_info: _, lhs, rhs } => match (meaning(*lhs), meaning(*rhs)) {
            (Some(x), Some(y)) => Some(x + y),
            _ => None,
        },
        ValueView::Sub { line_info: _, lhs, rhs } => match (meaning(*lhs), meaning(*rhs)) {
            (Some(x), Some(y)) => Some(x - y),
            _ => None,
        },
        ValueView::Mul { line_info: _, lhs, rhs } => match (meaning(*lhs), meaning(*rhs)) {
            (Some(x), Some(y)) => Some(x * y),
            _ => None,
        },
        ValueView::Shl { line_info: _, lhs, rhs } => match (meaning(*lhs), meaning(*rhs)) {
            (Some(x), Some(y)) => Some(((x as i64) << (y as i64)) as int),
            _ => None,
        },
        ValueView::Shr { line_info: _, lhs, rhs } => match (meaning(*lhs), meaning(*rhs)) {
            (Some(x), Some(y)) => if lhs.taipe.is_unsigned_integer() {
                Some(((x as u64) >> (y as u64)) as int)
            } else {
                Some(((x as i64) >> (y as i64)) as int)
            },
            _ => None,
        },
        ValueView::BitAnd { line_info: _, lhs, rhs } => match (meaning(*lhs), meaning(*rhs)) {
            (Some(x), Some(y)) => Some(((x as i64) & (y as i64)) as int),
            _ => None,
        },
        ValueView::BitXor { line_info: _, lhs, rhs } => match (meaning(*lhs), meaning(*rhs)) {
            (Some(x), Some(y)) => Some(((x as i64) ^ (y as i64)) as int),
            _ => None,
        },
        ValueView::BitOr { line_info: _, lhs, rhs } => match (meaning(*lhs), meaning(*rhs)) {
            (Some(x), Some(y)) => Some(((x as i64) | (y as i64)) as int),
            _ => None,
        },
        _ => None,
    }
}

proof fn lemma_same_prefix(a: Seq<InsView>, b: Seq<InsView>, place: int)
    requires
        a.len() <= b.len(),
        b.take(a.len() as int) == a,
        place < a.len(),
    ensures
        machine_value(b, place) == machine_value(a, place),
    decreases place,
{
    if place >= 0 {
        assert(b.take(a.len() as int)[place] == b[place]);
        match a[place] {
            InsView::Ineg(v) => {
                if v < place {
                    lemma_same_prefix(a, b, v as int);
                }
            },
            InsView::Bnot(v) => {
                if v < place {
                    lemma_same_prefix(a, b, v as int);
                }
            },
            InsView::Binary { op: _, lhs, rhs } => {
                if lhs < place && rhs < place {
                    lemma_same_prefix(a, b, lhs as int);
                    lemma_same_prefix(a, b, rhs as int);
                }
            },
            _ => {},
        }
    }
}

/// Whether code computes an integer.
pub open spec fn computes(code: CodeView, number: int) -> bool {
    code.value matches Some(p) && p < code.ins.len() && machine_value(code.ins, p as int) == Some(
        number,
    )
}

proof fn lemma_appended(code: CodeView, last: InsView, place: int)
    requires
        place < code.ins.len(),
    ensures
        machine_value(code.ins.push(last), place) == machine_value(code.ins, place),
{
    assert(code.ins.push(last).take(code.ins.len() as int) =~= code.ins);
    lemma_same_prefix(code.ins, code.ins.push(last), place);
}

proof fn lemma_operands(
    lhs: ContextView,
    rhs: ContextView,
    op: BinaryIns,
    ins: Seq<InsView>,
    x: int,
    y: int,
    left: CodeView,
    right: CodeView,
)
    requires
        ctx_code(lhs, ins) == Ok::<_, StopView>(left),
        ctx_code(rhs, left.ins) == Ok::<_, StopView>(right),
        right.ins.len() < usize::MAX,
        computes(left, x),
        computes(right, y),
    ensures
        computes(joined_code(op, left.value, right), machine_result(op, x, y)),
{
    law_generated_code_goes_on(rhs, left.ins);
    let l = left.value->0;
    let r = right.value->0;
    lemma_same_prefix(left.ins, right.ins, l as int);
    let last = InsView::Binary { op, lhs: l, rhs: r };
    lemma_appended(right, last, l as int);
    lemma_appended(right, last, r as int);
}

/// The code of an expression that means an integer computes this integer, after all instructions
/// that were there. There are not more instructions than can be counted.
pub proof fn law_code_computes(ctx: ContextView, ins: Seq<InsView>, number: int)
    requires
        meaning(ctx) == Some(number),
    ensures
        ctx_code(ctx, ins) matches Ok(code) && (code.ins.len() < usize::MAX ==> computes(
            code,
            number,
        )),
        ctx_code(ctx, ins)->Ok_0.ins.len() > ins.len(),
    decreases ctx, 1nat,
{
    match ctx.value {
        ValueView::Imm(imm) => {
            assert(imm_ins(imm) is Ok);
            let last = imm_ins(imm)->Ok_0;
            assert(last matches InsView::Iconst { taipe: _, value } && value as int == number);
        },
        ValueView::Negate { line_info: _, ctx: operand } => {
            law_code_computes(*operand, ins, meaning(*operand)->0);
            let code = ctx_code(*operand, ins)->Ok_0;
            if code.ins.len() < usize::MAX {
                let v = code.value->0;
                lemma_appended(code, InsView::Ineg(v), v as int);
            }
        },
        ValueView::FlipBits { line_info: _, ctx: operand } => {
            law_code_computes(*operand, ins, meaning(*operand)->0);
            let code = ctx_code(*operand, ins)->Ok_0;
            if code.ins.len() < usize::MAX {
                let v = code.value->0;
                lemma_appended(code, InsView::Bnot(v), v as int);
            }
        },
        ValueView::Add { line_info: _, lhs, rhs } => {
            lemma_both(ctx, *lhs, *rhs, BinaryIns::Iadd, ins);
        },
        ValueView::Sub { line_info: _, lhs, rhs } => {
            lemma_both(ctx, *lhs, *rhs, BinaryIns::Isub, ins);
        },
        ValueView::Mul { line_info: _, lhs, rhs } => {
            lemma_both(ctx, *lhs, *rhs, BinaryIns::Imul, ins);
        },
        ValueView::Shl { line_info: _, lhs, rhs } => {
            lemma_both(ctx, *lhs, *rhs, BinaryIns::Ishl, ins);
        },
        ValueView::Shr { line_info: _, lhs, rhs } => {
            if lhs.taipe.is_unsigned_integer() {
                lemma_both(ctx, *lhs, *rhs, BinaryIns::Ushr, ins);
            } else {
                lemma_both(ctx, *lhs, *rhs, BinaryIns::Sshr, ins);
            }
        },
        ValueView::BitAnd { line_info: _, lhs, rhs } => {
            lemma_both(ctx, *lhs, *rhs, BinaryIns::Band, ins);
        },
        ValueView::BitXor { line_info: _, lhs, rhs } => {
            lemma_both(ctx, *lhs, *rhs, BinaryIns::Bxor, ins);
        },
        ValueView::BitOr { line_info: _, lhs, rhs } => {
            lemma_both(ctx, *lhs, *rhs, BinaryIns::Bor, ins);
        },
        _ => {},
    }
}

proof fn lemma_both(
    node: ContextView,
    lhs: ContextView,
    rhs: ContextView,
    op: BinaryIns,
    ins: Seq<InsView>,
)
    requires
        decreases_to!(node => lhs),
        decreases_to!(node => rhs),
        meaning(lhs) is Some,
        meaning(rhs) is Some,
    ensures
        ctx_code(lhs, ins) is Ok,
        ctx_code(rhs, ctx_code(lhs, ins)->Ok_0.ins) is Ok,
        ({
            let left = ctx_code(lhs, ins)->Ok_0;
            let right = ctx_code(rhs, left.ins)->Ok_0;
            let all = joined_code(op, left.value, right);
            &&& all.ins.len() > ins.len()
            &&& all.ins.len() < usize::MAX ==> computes(
                all,
                machine_result(op, meaning(lhs)->0, meaning(rhs)->0),
            )
        }),
    decreases node, 0nat,
{
    law_code_computes(lhs, ins, meaning(lhs)->0);
    let left = ctx_code(lhs, ins)->Ok_0;
    law_code_computes(rhs, left.ins, meaning(rhs)->0);
    let right = ctx_code(rhs, left.ins)->Ok_0;
    if right.ins.len() < usize::MAX {
        lemma_operands(lhs, rhs, op, ins, meaning(lhs)->0, meaning(rhs)->0, left, right);
    }
}

/// A value that is returned is the last thing that its code does: it returns the place at which
/// the value is computed.
pub proof fn law_code_returns(
    ctx: ContextView,
    operand: ContextView,
    ins: Seq<InsView>,
    number: int,
)
    requires
        ctx.value == ValueView::Ret(Box::new(operand)),
        meaning(operand) == Some(number),
    ensures
        ctx_code(ctx, ins) matches Ok(code) && (code.ins.len() < usize::MAX ==> (code.ins.last()
            matches InsView::Return(Some(p)) && machine_value(code.ins, p as int) == Some(number))),
{
    law_code_computes(operand, ins, number);
    let code = ctx_code(operand, ins)->Ok_0;
    if code.ins.len() < usize::MAX {
        lemma_appended(code, InsView::Return(code.value), code.value->0 as int);
    }
}

proof fn lemma_part_kept(ctxs: Seq<ContextView>, ins: Seq<InsView>, i: int)
    requires
        0 <= i <= ctxs.len(),
    ensures
        ctxs_code(ctxs, ins, i) matches Ok(all) ==> {
            &&& ins.len() <= all.ins.len()
            &&& all.ins.take(ins.len() as int) == ins
        },
    decreases ctxs.len() - i,
{
    if i < ctxs.len() {
        law_generated_code_goes_on(ctxs[i], ins);
        if let Ok(code) = ctx_code(ctxs[i], ins) {
            lemma_part_kept(ctxs, code.ins, i + 1);
            if let Ok(all) = ctxs_code(ctxs, code.ins, i + 1) {
                assert(all.ins.take(ins.len() as int) =~= all.ins.take(
                    code.ins.len() as int,
                ).take(ins.len() as int));
            }
        }
    } else {
        assert(ins.take(ins.len() as int) =~= ins);
    }
}

/// The parts of a block are done in their order: the code of each part comes right after the code
/// of those before it.
pub proof fn law_code_in_order(ctxs: Seq<ContextView>, ins: Seq<InsView>, i: int)
    requires
        0 <= i < ctxs.len(),
        ctxs_code(ctxs, ins, i) is Ok,
    ensures
        ({
            let all = ctxs_code(ctxs, ins, i)->Ok_0.ins;
            let part = ctx_code(ctxs[i], ins)->Ok_0.ins;
            &&& ctx_code(ctxs[i], ins) is Ok
            &&& part.len() <= all.len()
            &&& all.take(part.len() as int) == part
            &&& i + 1 < ctxs.len() ==> ctxs_code(ctxs, part, i + 1) == Ok::<_, StopView>(
                ctxs_code(ctxs, ins, i)->Ok_0,
            )
            &&& i + 1 == ctxs.len() ==> all == part
        }),
{
    let part = ctx_code(ctxs[i], ins)->Ok_0.ins;
    lemma_part_kept(ctxs, part, i + 1);
}

/// How many bytes a machine integer has.
pub open spec fn machine_bytes(taipe: ClType) -> nat {
    match taipe {
        ClType::I8 => 1,
        ClType::I16 => 2,
        ClType::I32 | ClType::F32 => 4,
        ClType::I64 | ClType::F64 => 8,
        ClType::I128 => 16,
        ClType::Pointer => 0,
    }
}

/// The machine type of an integer type has just enough bytes for all of its integers, and what is
/// constant has the machine type of what it is. An immediate value is of the machine type of its
/// type.
pub proof fn law_machine_types(taipe: TypeView, kind: IntKind, imm: ImmView)
    requires
        taipe.remove_const().int_kind() == Some(kind),
        imm.int_kind() == Some(kind),
    ensures
        machine_type(taipe) matches Ok(machine) && pow(256, machine_bytes(machine)) == kind_max(
            kind,
        ) - kind_min(kind) + 1 && !(machine is F32 || machine is F64 || machine is Pointer),
        imm_ins(imm) matches Ok(InsView::Iconst { taipe: machine, value: _ }) && machine_type(taipe)
            == Ok::<_, StopView>(machine),
{
    reveal_with_fuel(machine_type, 2);
    reveal_with_fuel(pow, 18);
}

/// Floating point numbers, pointers, truth values and characters have machine types of their size.
pub proof fn law_other_machine_types()
    ensures
        machine_type(TypeView::Float32) == Ok::<_, StopView>(ClType::F32),
        machine_type(TypeView::Float64) == Ok::<_, StopView>(ClType::F64),
        machine_type(TypeView::Bool) == Ok::<_, StopView>(ClType::I8),
        machine_type(TypeView::Char) == Ok::<_, StopView>(ClType::I32),
        forall|inner: Box<TypeView>| #[trigger]
            machine_type(TypeView::Pointer(inner)) == Ok::<_, StopView>(ClType::Pointer),
{
}

proof fn lemma_param_types(params: Seq<ParamView>, found: Seq<ClType>, i: int)
    requires
        0 <= i <= params.len(),
        found.len() == i,
    ensures
        param_types(params, found, i) matches Ok(all) ==> {
            &&& all.len() == params.len()
            &&& forall|k: int| 0 <= k < i ==> #[trigger] all[k] == found[k]
            &&& forall|k: int|
                i <= k < params.len() ==> machine_type(params[k].taipe) == Ok::<_, StopView>(
                    #[trigger] all[k],
                )
        },
    decreases params.len() - i,
{
    if i < params.len() {
        if let Ok(taipe) = machine_type(params[i].taipe) {
            lemma_param_types(params, found.push(taipe), i + 1);
            assert(found.push(taipe)[i] == taipe);
        }
    }
}

/// What a function takes are the machine types of its parameters in their order, and what it gives
/// is the machine type of its result, or nothing where it returns nothing.
pub proof fn law_signature(ret: TypeView, params: Seq<ParamView>, k: int)
    ensures
        fun_sig(ret, params) matches Ok(sig) ==> {
            &&& sig.params.len() == params.len()
            &&& 0 <= k < params.len() ==> machine_type(params[k].taipe) == Ok::<_, StopView>(
                sig.params[k],
            )
            &&& ret.is_void() ==> sig.results.len() == 0
            &&& !ret.is_void() ==> sig.results.len() == 1 && machine_type(ret) == Ok::<_, StopView>(
                sig.results[0],
            )
        },
{
    lemma_param_types(params, seq![], 0);
}

proof fn lemma_scope_found(pool: Seq<ScopeView>, index: int, found: Seq<FunCodeView>)
    ensures
        scope_code(pool, index, found) matches Ok(all) ==> {
            &&& 0 <= index < pool.len()
            &&& found.len() <= all.len()
            &&& all.take(found.len() as int) == found
            &&& pool[index].kind == ScopeKind::Function ==> {
                &&& found.len() < all.len()
                &&& fun_code(pool[index]) == Ok::<_, StopView>(all[found.len() as int])
            }
        },
    decreases pool.len() - index, 1nat, 0int,
{
    if 0 <= index < pool.len() {
        let children = pool[index].children.values;
        if pool[index].kind == ScopeKind::Function {
            if let Ok(function) = fun_code(pool[index]) {
                let more = found.push(function);
                lemma_children_found(pool, index, children, more, 0);
                if let Ok(all) = children_code(pool, index, children, more, 0) {
                    assert(all.take(found.len() as int) =~= all.take(more.len() as int).take(
                        found.len() as int,
                    ));
                    assert(more.take(found.len() as int) =~= found);
                    assert(all.take(more.len() as int)[found.len() as int] == function);
                }
            }
        } else {
            lemma_children_found(pool, index, children, found, 0);
        }
    }
}

proof fn lemma_children_found(
    pool: Seq<ScopeView>,
    index: int,
    children: Seq<ScopeIdView>,
    found: Seq<FunCodeView>,
    i: int,
)
    ensures
        children_code(pool, index, children, found, i) matches Ok(all) ==> {
            &&& found.len() <= all.len()
            &&& all.take(found.len() as int) == found
        },
    decreases pool.len() - index, 0nat, children.len() - i,
{
    assert(found.take(found.len() as int) =~= found);
    if 0 <= i < children.len() && index < children[i].index < pool.len() {
        lemma_scope_found(pool, children[i].index, found);
        if let Ok(more) = scope_code(pool, children[i].index, found) {
            lemma_children_found(pool, index, children, more, i + 1);
            if let Ok(all) = children_code(pool, index, children, more, i + 1) {
                assert(all.take(found.len() as int) =~= all.take(more.len() as int).take(
                    found.len() as int,
                ));
            }
        }
    }
}

/// The functions of a scope come after those that were found before, which stay. A function comes
/// before the functions within it, under its full name, and with the code of its body.
pub proof fn law_functions_found(pool: Seq<ScopeView>, index: int, found: Seq<FunCodeView>)
    requires
        scope_code(pool, index, found) is Ok,
    ensures
        ({
            let all = scope_code(pool, index, found)->Ok_0;
            &&& found.len() <= all.len()
            &&& all.take(found.len() as int) == found
            &&& pool[index].kind == ScopeKind::Function ==> {
                let function = all[found.len() as int];
                &&& found.len() < all.len()
                &&& function.name == pool[index].id.sym_path
                &&& pool[index].payload is Function
                &&& pool[index].payload->Function_0.ctx is Some
                &&& ctx_code(pool[index].payload->Function_0.ctx->0, seq![]) matches Ok(code)
                &&& function.ins == code.ins
            }
        }),
{
    lemma_scope_found(pool, index, found);
}

/// The functions of every scope within a scope are found, in the order of these scopes.
pub proof fn law_inner_functions_found(
    pool: Seq<ScopeView>,
    index: int,
    children: Seq<ScopeIdView>,
    found: Seq<FunCodeView>,
    i: int,
)
    requires
        0 <= i < children.len(),
        children_code(pool, index, children, found, i) is Ok,
    ensures
        ({
            let all = children_code(pool, index, children, found, i)->Ok_0;
            &&& scope_code(pool, children[i].index, found) matches Ok(more)
            &&& more.len() <= all.len()
            &&& all.take(more.len() as int) == more
        }),
{
    let more = scope_code(pool, children[i].index, found)->Ok_0;
    lemma_children_found(pool, index, children, more, i + 1);
}

} // verus!
