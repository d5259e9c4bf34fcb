use vstd::prelude::*;

use crate::analyzer::analysis::ScopePool;
use crate::common::{outcome, Stop, StopView};
use crate::context::{
    context_models, group_context_models, param_models, Context, ContextView, Float, FloatView, Imm,
    ImmView, Param, ParamView, Type, TypeView, Value, ValueView,
};
use crate::scope::{Payload, PayloadView, ScopeId, ScopeIdView, ScopeKind, ScopeView};
use crate::table::{lemma_views_empty, lemma_views_push, views, Table};

pub mod laws;

verus! {

/// The types of machine values. A pointer is as wide as the machine's addresses.
#[derive(Clone, Copy, Debug, PartialEq, Eq, Structural)]
pub enum ClType {
    I8,
    I16,
    I32,
    I64,
    I128,
    F32,
    F64,
    Pointer,
}

impl View for ClType {
    type V = ClType;

    open spec fn view(&self) -> ClType {
        *self
    }
}

/// The instructions with two operands.
#[derive(Clone, Copy, Debug, PartialEq, Eq, Structural)]
pub enum BinaryIns {
    Iadd,
    Isub,
    Imul,
    Ishl,
    Ushr,
    Sshr,
    Band,
    Bxor,
    Bor,
}

/// An instruction of a function. Operands are the places of the instructions that compute them.
pub enum Ins {
    Iconst { taipe: ClType, value: i64 },
    F32const(Float),
    F64const(Float),
    Fneg(usize),
    Ineg(usize),
    Bnot(usize),
    Binary { op: BinaryIns, lhs: usize, rhs: usize },
    /// The instructions that follow stand in a block of their own.
    Block,
    Return(Option<usize>),
}

/// The model of an instruction.
pub enum InsView {
    Iconst { taipe: ClType, value: i64 },
    F32const(FloatView),
    F64const(FloatView),
    Fneg(usize),
    Ineg(usize),
    Bnot(usize),
    Binary { op: BinaryIns, lhs: usize, rhs: usize },
    Block,
    Return(Option<usize>),
}

impl View for Ins {
    type V = InsView;

    open spec fn view(&self) -> InsView {
        match *self {
            Ins::Iconst { taipe, value } => InsView::Iconst { taipe, value },
            Ins::F32const(number) => InsView::F32const(number@),
            Ins::F64const(number) => InsView::F64const(number@),
            Ins::Fneg(operand) => InsView::Fneg(operand),
            Ins::Ineg(operand) => InsView::Ineg(operand),
            Ins::Bnot(operand) => InsView::Bnot(operand),
            Ins::Binary { op, lhs, rhs } => InsView::Binary { op, lhs, rhs },
            Ins::Block => InsView::Block,
            Ins::Return(operand) => InsView::Return(operand),
        }
    }
}

/// Instructions, and the place of the one that computes the value that was asked for, if there is
/// one.
pub struct Code {
    pub ins: Vec<Ins>,
    pub value: Option<usize>,
}

/// The model of instructions.
pub struct CodeView {
    pub ins: Seq<InsView>,
    pub value: Option<usize>,
}

impl View for Code {
    type V = CodeView;

    open spec fn view(&self) -> CodeView {
        CodeView { ins: views(self.ins@), value: self.value }
    }
}

/// The instructions with one more, which computes the value.
pub open spec fn with_value(ins: Seq<InsView>, last: InsView) -> CodeView {
    CodeView { ins: ins.push(last), value: Some(ins.len() as usize) }
}

/// The instructions with one more, which computes no value.
pub open spec fn without_value(ins: Seq<InsView>, last: InsView) -> CodeView {
    CodeView { ins: ins.push(last), value: None }
}

fn push_value(code: Vec<Ins>, last: Ins) -> (r: Code)
    ensures
        r@ == with_value(views(code@), last@),
{
    broadcast use lemma_views_push;

    let mut ins: Vec<Ins> = code;
    let place: usize = ins.len();
    ins.push(last);
    Code { ins, value: Some(place) }
}

fn push_ins(code: Vec<Ins>, last: Ins) -> (r: Code)
    ensures
        r@ == without_value(views(code@), last@),
{
    broadcast use lemma_views_push;

    let mut ins: Vec<Ins> = code;
    ins.push(last);
    Code { ins, value: None }
}

/// The instruction for an immediate value. An integer is cut to the width of an immediate operand.
pub open spec fn imm_ins(imm: ImmView) -> Result<InsView, StopView> {
    match imm {
        ImmView::Bool(b) => Ok(
            InsView::Iconst {
                taipe: ClType::I8,
                value: if b {
                    1
                } else {
                    0
                },
            },
        ),
        ImmView::Char(c) => Ok(InsView::Iconst { taipe: ClType::I32, value: c as u32 as i64 }),
        ImmView::Int8(v) => Ok(InsView::Iconst { taipe: ClType::I8, value: v as i64 }),
        ImmView::Int16(v) => Ok(InsView::Iconst { taipe: ClType::I16, value: v as i64 }),
        ImmView::Int32(v) => Ok(InsView::Iconst { taipe: ClType::I32, value: v as i64 }),
        ImmView::Int64(v) => Ok(InsView::Iconst { taipe: ClType::I64, value: v }),
        ImmView::Int128(v) => Ok(InsView::Iconst { taipe: ClType::I128, value: v as i64 }),
        ImmView::Uint8(v) => Ok(InsView::Iconst { taipe: ClType::I8, value: v as i64 }),
        ImmView::Uint16(v) => Ok(InsView::Iconst { taipe: ClType::I16, value: v as i64 }),
        ImmView::Uint32(v) => Ok(InsView::Iconst { taipe: ClType::I32, value: v as i64 }),
        ImmView::Uint64(v) => Ok(InsView::Iconst { taipe: ClType::I64, value: v as i64 }),
        ImmView::Uint128(v) => Ok(InsView::Iconst { taipe: ClType::I128, value: v as i64 }),
        ImmView::Float32(v) => Ok(InsView::F32const(v)),
        ImmView::Float64(v) => Ok(InsView::F64const(v)),
        ImmView::Null => Ok(InsView::Iconst { taipe: ClType::Pointer, value: 0 }),
        _ => Err(StopView::Unsupported("probably some analyzer bug"@)),
    }
}

/// The instruction for an immediate value. An integer is cut to the width of an immediate operand.
fn gen_imm(imm: &Imm) -> (r: Result<Ins, Stop>)
    ensures
        outcome(r) == imm_ins(imm@),
{
    match imm {
        Imm::Bool(b) => {
            let value: i64 = if *b {
                1
            } else {
                0
            };
            Ok(Ins::Iconst { taipe: ClType::I8, value })
        },
        Imm::Char(c) => Ok(Ins::Iconst { taipe: ClType::I32, value: *c as u32 as i64 }),
        Imm::Int8(v) => Ok(Ins::Iconst { taipe: ClType::I8, value: *v as i64 }),
        Imm::Int16(v) => Ok(Ins::Iconst { taipe: ClType::I16, value: *v as i64 }),
        Imm::Int32(v) => Ok(Ins::Iconst { taipe: ClType::I32, value: *v as i64 }),
        Imm::Int64(v) => Ok(Ins::Iconst { taipe: ClType::I64, value: *v }),
        Imm::Int128(v) => {
            let value: i64 = #[verifier::truncate]
            (*v as i64);
            Ok(Ins::Iconst { taipe: ClType::I128, value })
        },
        Imm::Uint8(v) => Ok(Ins::Iconst { taipe: ClType::I8, value: *v as i64 }),
        Imm::Uint16(v) => Ok(Ins::Iconst { taipe: ClType::I16, value: *v as i64 }),
        Imm::Uint32(v) => Ok(Ins::Iconst { taipe: ClType::I32, value: *v as i64 }),
        Imm::Uint64(v) => {
            let value: i64 = #[verifier::truncate]
            (*v as i64);
            Ok(Ins::Iconst { taipe: ClType::I64, value })
        },
        Imm::Uint128(v) => {
            let value: i64 = #[verifier::truncate]
            (*v as i64);
            Ok(Ins::Iconst { taipe: ClType::I128, value })
        },
        Imm::Float32(v) => Ok(Ins::F32const(v.copy())),
        Imm::Float64(v) => Ok(Ins::F64const(v.copy())),
        Imm::Null => Ok(Ins::Iconst { taipe: ClType::Pointer, value: 0 }),
        _ => Err(Stop::Unsupported("probably some analyzer bug".to_owned())),
    }
}

/// The instructions for an operator whose operands were computed. Without a value for both
/// operands there is none for the operator.
pub open spec fn joined_code(op: BinaryIns, lhs: Option<usize>, code: CodeView) -> CodeView {
    match (lhs, code.value) {
        (Some(l), Some(r)) => with_value(code.ins, InsView::Binary { op, lhs: l, rhs: r }),
        _ => CodeView { ins: code.ins, value: None },
    }
}

fn join_code(op: BinaryIns, lhs: Option<usize>, code: Code) -> (r: Code)
    ensures
        r@ == joined_code(op, lhs, code@),
{
    match (lhs, code.value) {
        (Some(l), Some(r)) => push_value(code.ins, Ins::Binary { op, lhs: l, rhs: r }),
        _ => Code { ins: code.ins, value: None },
    }
}

/// The instructions that compute a value, after the given ones.
pub open spec fn ctx_code(ctx: ContextView, ins: Seq<InsView>) -> Result<CodeView, StopView>
    decreases ctx, 0int,
{
    match ctx.value {
        ValueView::Imm(imm) => match imm_ins(imm) {
            Err(e) => Err(e),
            Ok(last) => Ok(with_value(ins, last)),
        },
        ValueView::Negate { line_info: _, ctx: operand } => match ctx_code(*operand, ins) {
            Err(e) => Err(e),
            Ok(code) => match code.value {
                Some(v) => if operand.taipe.is_float() {
                    Ok(with_value(code.ins, InsView::Fneg(v)))
                } else {
                    Ok(with_value(code.ins, InsView::Ineg(v)))
                },
                None => Ok(code),
            },
        },
        ValueView::FlipBits { line_info: _, ctx: operand } => match ctx_code(*operand, ins) {
            Err(e) => Err(e),
            Ok(code) => match code.value {
                Some(v) => Ok(with_value(code.ins, InsView::Bnot(v))),
                None => Ok(code),
            },
        },
        ValueView::Add { line_info: _, lhs, rhs } => match ctx_code(*lhs, ins) {
            Err(e) => Err(e),
            Ok(left) => match ctx_code(*rhs, left.ins) {
                Err(e) => Err(e),
                Ok(right) => Ok(joined_code(BinaryIns::Iadd, left.value, right)),
            },
        },
        ValueView::Sub { line_info: _, lhs, rhs } => match ctx_code(*lhs, ins) {
            Err(e) => Err(e),
            Ok(left) => match ctx_code(*rhs, left.ins) {
                Err(e) => Err(e),
                Ok(right) => Ok(joined_code(BinaryIns::Isub, left.value, right)),
            },
        },
        ValueView::Mul { line_info: _, lhs, rhs } => match ctx_code(*lhs, ins) {
            Err(e) => Err(e),
            Ok(left) => match ctx_code(*rhs, left.ins) {
                Err(e) => Err(e),
                Ok(right) => Ok(joined_code(BinaryIns::Imul, left.value, right)),
            },
        },
        ValueView::Shl { line_info: _, lhs, rhs } => match ctx_code(*lhs, ins) {
            Err(e) => Err(e),
            Ok(left) => match ctx_code(*rhs, left.ins) {
                Err(e) => Err(e),
                Ok(right) => Ok(joined_code(BinaryIns::Ishl, left.value, right)),
            },
        },
        ValueView::Shr { line_info: _, lhs, rhs } => match ctx_code(*lhs, ins) {
            Err(e) => Err(e),
            Ok(left) => match ctx_code(*rhs, left.ins) {
                Err(e) => Err(e),
                Ok(right) => Ok(joined_code(shift_right(lhs.taipe), left.value, right)),
            },
        },
        ValueView::BitAnd { line_info: _, lhs, rhs } => match ctx_code(*lhs, ins) {
            Err(e) => Err(e),
            Ok(left) => match ctx_code(*rhs, left.ins) {
                Err(e) => Err(e),
                Ok(right) => Ok(joined_code(BinaryIns::Band, left.value, right)),
            },
        },
        ValueView::BitXor { line_info: _, lhs, rhs } => match ctx_code(*lhs, ins) {
            Err(e) => Err(e),
            Ok(left) => match ctx_code(*rhs, left.ins) {
                Err(e) => Err(e),
                Ok(right) => Ok(joined_code(BinaryIns::Bxor, left.value, right)),
            },
        },
        ValueView::BitOr { line_info: _, lhs, rhs } => match ctx_code(*lhs, ins) {
            Err(e) => Err(e),
            Ok(left) => match ctx_code(*rhs, left.ins) {
                Err(e) => Err(e),
                Ok(right) => Ok(joined_code(BinaryIns::Bor, left.value, right)),
            },
        },
        ValueView::Block(ctxs) => ctxs_code(ctxs, ins.push(InsView::Block), 0),
        ValueView::Ret(operand) => match ctx_code(*operand, ins) {
            Err(e) => Err(e),
            Ok(code) => Ok(without_value(code.ins, InsView::Return(code.value))),
        },
        _ => Err(StopView::Unsupported("not yet implemented"@)),
    }
}

/// The instructions that compute several values from one on, after the given ones.
pub open spec fn ctxs_code(ctxs: Seq<ContextView>, ins: Seq<InsView>, i: int) -> Result<
    CodeView,
    StopView,
>
    decreases ctxs, ctxs.len() - i,
{
    if i < 0 || i >= ctxs.len() {
        Ok(CodeView { ins, value: None })
    } else {
        match ctx_code(ctxs[i], ins) {
            Err(e) => Err(e),
            Ok(code) => ctxs_code(ctxs, code.ins, i + 1),
        }
    }
}

/// Generates the instructions that compute a value, after the given ones.
pub fn gen_ctx(ctx: &Context, ins: Vec<Ins>) -> (r: Result<Code, Stop>)
    ensures
        outcome(r) == ctx_code(ctx@, views(ins@)),
    decreases ctx, 0int,
{
    proof {
        reveal(Context::model);
        reveal(Value::model);
    }
    match &ctx.value {
        Value::Imm(imm) => match gen_imm(imm) {
            Err(e) => Err(e),
            Ok(last) => Ok(push_value(ins, last)),
        },
        Value::Negate { line_info: _, ctx: operand } => match gen_ctx(operand, ins) {
            Err(e) => Err(e),
            Ok(code) => match code.value {
                Some(v) => if operand.taipe.is_float() {
                    Ok(push_value(code.ins, Ins::Fneg(v)))
                } else {
                    Ok(push_value(code.ins, Ins::Ineg(v)))
                },
                None => Ok(code),
            },
        },
        Value::FlipBits { line_info: _, ctx: operand } => match gen_ctx(operand, ins) {
            Err(e) => Err(e),
            Ok(code) => match code.value {
                Some(v) => Ok(push_value(code.ins, Ins::Bnot(v))),
                None => Ok(code),
            },
        },
        Value::Add { line_info: _, lhs, rhs } => match gen_ctx(lhs, ins) {
            Err(e) => Err(e),
            Ok(left) => match gen_ctx(rhs, left.ins) {
                Err(e) => Err(e),
                Ok(right) => Ok(join_code(BinaryIns::Iadd, left.value, right)),
            },
        },
        Value::Sub { line_info: _, lhs, rhs } => match gen_ctx(lhs, ins) {
            Err(e) => Err(e),
            Ok(left) => match gen_ctx(rhs, left.ins) {
                Err(e) => Err(e),
                Ok(right) => Ok(join_code(BinaryIns::Isub, left.value, right)),
            },
        },
        Value::Mul { line_info: _, lhs, rhs } => match gen_ctx(lhs, ins) {
            Err(e) => Err(e),
            Ok(left) => match gen_ctx(rhs, left.ins) {
                Err(e) => Err(e),
                Ok(right) => Ok(join_code(BinaryIns::Imul, left.value, right)),
            },
        },
        Value::Shl { line_info: _, lhs, rhs } => match gen_ctx(lhs, ins) {
            Err(e) => Err(e),
            Ok(left) => match gen_ctx(rhs, left.ins) {
                Err(e) => Err(e),
                Ok(right) => Ok(join_code(BinaryIns::Ishl, left.value, right)),
            },
        },
        Value::Shr { line_info: _, lhs, rhs } => match gen_ctx(lhs, ins) {
            Err(e) => Err(e),
            Ok(left) => match gen_ctx(rhs, left.ins) {
                Err(e) => Err(e),
                Ok(right) => Ok(join_code(shift_ins(&lhs.taipe), left.value, right)),
            },
        },
        Value::BitAnd { line_info: _, lhs, rhs } => match gen_ctx(lhs, ins) {
            Err(e) => Err(e),
            Ok(left) => match gen_ctx(rhs, left.ins) {
                Err(e) => Err(e),
                Ok(right) => Ok(join_code(BinaryIns::Band, left.value, right)),
            },
        },
        Value::BitXor { line_info: _, lhs, rhs } => match gen_ctx(lhs, ins) {
            Err(e) => Err(e),
            Ok(left) => match gen_ctx(rhs, left.ins) {
                Err(e) => Err(e),
                Ok(right) => Ok(join_code(BinaryIns::Bxor, left.value, right)),
            },
        },
        Value::BitOr { line_info: _, lhs, rhs } => match gen_ctx(lhs, ins) {
            Err(e) => Err(e),
            Ok(left) => match gen_ctx(rhs, left.ins) {
                Err(e) => Err(e),
                Ok(right) => Ok(join_code(BinaryIns::Bor, left.value, right)),
            },
        },
        Value::Block(ctxs) => gen_ctxs(ctxs, push_ins(ins, Ins::Block).ins),
        Value::Ret(operand) => match gen_ctx(operand, ins) {
            Err(e) => Err(e),
            Ok(code) => Ok(push_ins(code.ins, Ins::Return(code.value))),
        },
        _ => Err(Stop::Unsupported("not yet implemented".to_owned())),
    }
}

/// The shift that keeps the sign of signed integers.
pub open spec fn shift_right(taipe: TypeView) -> BinaryIns {
    if taipe.is_unsigned_integer() {
        BinaryIns::Ushr
    } else {
        BinaryIns::Sshr
    }
}

fn shift_ins(taipe: &Type) -> (r: BinaryIns)
    ensures
        r == shift_right(taipe@),
{
    if taipe.is_unsigned_integer() {
        BinaryIns::Ushr
    } else {
        BinaryIns::Sshr
    }
}

fn gen_ctxs(ctxs: &Vec<Context>, ins: Vec<Ins>) -> (r: Result<Code, Stop>)
    ensures
        outcome(r) == ctxs_code(context_models(ctxs@), views(ins@), 0),
    decreases ctxs, 1int,
{
    broadcast use group_context_models;

    let mut code: Vec<Ins> = ins;
    let mut i: usize = 0;
    let ghost goal = ctxs_code(context_models(ctxs@), views(ins@), 0);
    while i < ctxs.len()
        invariant
            i <= ctxs@.len(),
            goal == ctxs_code(context_models(ctxs@), views(ins@), 0),
            goal == ctxs_code(context_models(ctxs@), views(code@), i as int),
        decreases ctxs@.len() - i,
    {
        broadcast use group_context_models;

        assert(context_models(ctxs@)[i as int] == ctxs@[i as int]@);
        match gen_ctx(&ctxs[i], code) {
            Err(e) => {
                return Err(e);
            },
            Ok(more) => {
                code = more.ins;
            },
        }
        i = i + 1;
    }
    Ok(Code { ins: code, value: None })
}

/// Whether an instruction at a place uses only what was computed before it.
pub open spec fn ready(ins: InsView, place: int) -> bool {
    match ins {
        InsView::Fneg(v) => v < place,
        InsView::Ineg(v) => v < place,
        InsView::Bnot(v) => v < place,
        InsView::Binary { op: _, lhs, rhs } => lhs < place && rhs < place,
        InsView::Return(Some(v)) => v < place,
        _ => true,
    }
}

/// Whether every instruction uses only what was computed before it.
pub open spec fn all_ready(ins: Seq<InsView>) -> bool {
    forall|k: int| 0 <= k < ins.len() ==> ready(#[trigger] ins[k], k)
}

/// Whether instructions go on from others: those stay, nothing is used before it is computed, and
/// the value was computed. Places are held in a machine word.
pub open spec fn goes_on(ins: Seq<InsView>, code: CodeView) -> bool {
    &&& ins.len() <= code.ins.len()
    &&& code.ins.take(ins.len() as int) == ins
    &&& code.ins.len() <= usize::MAX && all_ready(ins) ==> all_ready(code.ins)
    &&& code.ins.len() <= usize::MAX ==> (code.value matches Some(v) ==> v < code.ins.len())
}

proof fn lemma_one_more(ins: Seq<InsView>, code: CodeView, last: InsView)
    requires
        goes_on(ins, code),
        code.ins.len() <= usize::MAX ==> ready(last, code.ins.len() as int),
    ensures
        goes_on(ins, with_value(code.ins, last)),
        goes_on(ins, without_value(code.ins, last)),
{
    let more = code.ins.push(last);
    assert(more.take(ins.len() as int) =~= code.ins.take(ins.len() as int));
    if more.len() <= usize::MAX && all_ready(ins) {
        assert forall|k: int| 0 <= k < more.len() implies ready(#[trigger] more[k], k) by {
            if k < code.ins.len() {
                assert(more[k] == code.ins[k]);
            }
        }
    }
}

proof fn lemma_go_on_twice(ins: Seq<InsView>, first: CodeView, second: CodeView)
    requires
        goes_on(ins, first),
        goes_on(first.ins, second),
    ensures
        goes_on(ins, second),
{
    assert(second.ins.take(ins.len() as int) =~= second.ins.take(first.ins.len() as int).take(
        ins.len() as int,
    ));
}

proof fn lemma_binary(
    ctx: ContextView,
    op: BinaryIns,
    lhs: ContextView,
    rhs: ContextView,
    ins: Seq<InsView>,
)
    requires
        decreases_to!(ctx => lhs),
        decreases_to!(ctx => rhs),
    ensures
        ctx_code(lhs, ins) matches Ok(left) ==> (ctx_code(rhs, left.ins) matches Ok(right)
            ==> goes_on(ins, joined_code(op, left.value, right))),
    decreases ctx, 0int,
{
    law_generated_code_goes_on(lhs, ins);
    if let Ok(left) = ctx_code(lhs, ins) {
        law_generated_code_goes_on(rhs, left.ins);
        if let Ok(right) = ctx_code(rhs, left.ins) {
            lemma_go_on_twice(ins, left, right);
            if let (Some(l), Some(r)) = (left.value, right.value) {
                lemma_one_more(ins, right, InsView::Binary { op, lhs: l, rhs: r });
            }
        }
    }
}

/// Generated instructions come after the given ones, which stay, and use only what was computed
/// before them.
pub proof fn law_generated_code_goes_on(ctx: ContextView, ins: Seq<InsView>)
    ensures
        ctx_code(ctx, ins) matches Ok(code) ==> goes_on(ins, code),
    decreases ctx, 1int,
{
    let same = CodeView { ins, value: None };
    assert(ins.take(ins.len() as int) =~= ins);
    assert(goes_on(ins, same));
    match ctx.value {
        ValueView::Imm(imm) => {
            if let Ok(last) = imm_ins(imm) {
                lemma_one_more(ins, same, last);
            }
        },
        ValueView::Negate { line_info: _, ctx: operand } => {
            law_generated_code_goes_on(*operand, ins);
            if let Ok(code) = ctx_code(*operand, ins) {
                if let Some(v) = code.value {
                    lemma_one_more(ins, code, InsView::Fneg(v));
                    lemma_one_more(ins, code, InsView::Ineg(v));
                }
            }
        },
        ValueView::FlipBits { line_info: _, ctx: operand } => {
            law_generated_code_goes_on(*operand, ins);
            if let Ok(code) = ctx_code(*operand, ins) {
                if let Some(v) = code.value {
                    lemma_one_more(ins, code, InsView::Bnot(v));
                }
            }
        },
        ValueView::Add { line_info: _, lhs, rhs } => {
            lemma_binary(ctx, BinaryIns::Iadd, *lhs, *rhs, ins);
        },
        ValueView::Sub { line_info: _, lhs, rhs } => {
            lemma_binary(ctx, BinaryIns::Isub, *lhs, *rhs, ins);
        },
        ValueView::Mul { line_info: _, lhs, rhs } => {
            lemma_binary(ctx, BinaryIns::Imul, *lhs, *rhs, ins);
        },
        ValueView::Shl { line_info: _, lhs, rhs } => {
            lemma_binary(ctx, BinaryIns::Ishl, *lhs, *rhs, ins);
        },
        ValueView::Shr { line_info: _, lhs, rhs } => {
            lemma_binary(ctx, shift_right(lhs.taipe), *lhs, *rhs, ins);
        },
        ValueView::BitAnd { line_info: _, lhs, rhs } => {
            lemma_binary(ctx, BinaryIns::Band, *lhs, *rhs, ins);
        },
        ValueView::BitXor { line_info: _, lhs, rhs } => {
            lemma_binary(ctx, BinaryIns::Bxor, *lhs, *rhs, ins);
        },
        ValueView::BitOr { line_info: _, lhs, rhs } => {
            lemma_binary(ctx, BinaryIns::Bor, *lhs, *rhs, ins);
        },
        ValueView::Block(ctxs) => {
            lemma_one_more(ins, same, InsView::Block);
            let begun = without_value(ins, InsView::Block);
            lemma_codes_go_on(ctxs, begun.ins, 0);
            if let Ok(code) = ctxs_code(ctxs, begun.ins, 0) {
                lemma_go_on_twice(ins, begun, code);
            }
        },
        ValueView::Ret(operand) => {
            law_generated_code_goes_on(*operand, ins);
            if let Ok(code) = ctx_code(*operand, ins) {
                lemma_one_more(ins, code, InsView::Return(code.value));
            }
        },
        _ => {},
    }
}

proof fn lemma_codes_go_on(ctxs: Seq<ContextView>, ins: Seq<InsView>, i: int)
    ensures
        ctxs_code(ctxs, ins, i) matches Ok(code) ==> goes_on(ins, code),
    decreases ctxs, ctxs.len() - i,
{
    assert(ins.take(ins.len() as int) =~= ins);
    if 0 <= i < ctxs.len() {
        law_generated_code_goes_on(ctxs[i], ins);
        if let Ok(code) = ctx_code(ctxs[i], ins) {
            lemma_codes_go_on(ctxs, code.ins, i + 1);
            if let Ok(all) = ctxs_code(ctxs, code.ins, i + 1) {
                lemma_go_on_twice(ins, code, all);
            }
        }
    }
}

/// The machine type of a type.
pub open spec fn machine_type(taipe: TypeView) -> Result<ClType, StopView>
    decreases taipe,
{
    match taipe {
        TypeView::Bool | TypeView::Int8 | TypeView::Uint8 => Ok(ClType::I8),
        TypeView::Int16 | TypeView::Uint16 => Ok(ClType::I16),
        TypeView::Char | TypeView::Int32 | TypeView::Uint32 => Ok(ClType::I32),
        TypeView::Int64 | TypeView::Uint64 => Ok(ClType::I64),
        TypeView::Int128 | TypeView::Uint128 => Ok(ClType::I128),
        TypeView::Float32 => Ok(ClType::F32),
        TypeView::Float64 => Ok(ClType::F64),
        TypeView::Const(inner) => machine_type(*inner),
        TypeView::Pointer(_) => Ok(ClType::Pointer),
        TypeView::Basic(_)
        | TypeView::Function { .. }
        | TypeView::Array { .. }
        | TypeView::Fat(_)
        | TypeView::Tuple(_) => Err(StopView::Unsupported("not yet implemented"@)),
        _ => Err(StopView::Unsupported("probably some analyzer bug"@)),
    }
}

/// The machine type of a type.
pub fn get_cl_type(taipe: &Type) -> (r: Result<ClType, Stop>)
    ensures
        outcome(r) == machine_type(taipe@),
    decreases taipe,
{
    match taipe {
        Type::Bool | Type::Int8 | Type::Uint8 => Ok(ClType::I8),
        Type::Int16 | Type::Uint16 => Ok(ClType::I16),
        Type::Char | Type::Int32 | Type::Uint32 => Ok(ClType::I32),
        Type::Int64 | Type::Uint64 => Ok(ClType::I64),
        Type::Int128 | Type::Uint128 => Ok(ClType::I128),
        Type::Float32 => Ok(ClType::F32),
        Type::Float64 => Ok(ClType::F64),
        Type::Const(inner) => get_cl_type(inner),
        Type::Pointer(_) => Ok(ClType::Pointer),
        Type::Basic(_)
        | Type::Function { ret: _, params: _ }
        | Type::Array { count: _, taipe: _ }
        | Type::Fat(_)
        | Type::Tuple(_) => Err(Stop::Unsupported("not yet implemented".to_owned())),
        _ => Err(Stop::Unsupported("probably some analyzer bug".to_owned())),
    }
}

/// What a function takes and gives.
pub struct FunSig {
    pub params: Vec<ClType>,
    pub results: Vec<ClType>,
}

/// The model of what a function takes and gives.
pub struct FunSigView {
    pub params: Seq<ClType>,
    pub results: Seq<ClType>,
}

impl View for FunSig {
    type V = FunSigView;

    open spec fn view(&self) -> FunSigView {
        FunSigView { params: self.params@, results: self.results@ }
    }
}

/// The machine types of parameters from one on, after those that were found.
pub open spec fn param_types(params: Seq<ParamView>, found: Seq<ClType>, i: int) -> Result<
    Seq<ClType>,
    StopView,
>
    decreases params.len() - i,
{
    if i < 0 || i >= params.len() {
        Ok(found)
    } else {
        match machine_type(params[i].taipe) {
            Err(e) => Err(e),
            Ok(taipe) => param_types(params, found.push(taipe), i + 1),
        }
    }
}

/// What a function with the given type takes and gives. `void` is given as nothing.
pub open spec fn fun_sig(ret: TypeView, params: Seq<ParamView>) -> Result<FunSigView, StopView> {
    match param_types(params, seq![], 0) {
        Err(e) => Err(e),
        Ok(types) => if ret.is_void() {
            Ok(FunSigView { params: types, results: seq![] })
        } else {
            match machine_type(ret) {
                Err(e) => Err(e),
                Ok(taipe) => Ok(FunSigView { params: types, results: seq![taipe] }),
            }
        },
    }
}

/// What a function with the given type takes and gives. `void` is given as nothing.
pub fn make_fun_sig(ret: &Type, params: &Vec<Param>) -> (r: Result<FunSig, Stop>)
    ensures
        outcome(r) == fun_sig(ret@, param_models(params@)),
{
    broadcast use group_context_models;

    let mut types: Vec<ClType> = Vec::new();
    let mut i: usize = 0;
    let ghost goal = param_types(param_models(params@), seq![], 0);
    while i < params.len()
        invariant
            i <= params@.len(),
            goal == param_types(param_models(params@), seq![], 0),
            goal == param_types(param_models(params@), types@, i as int),
        decreases params@.len() - i,
    {
        broadcast use group_context_models;

        assert(param_models(params@)[i as int] == params@[i as int]@);
        match get_cl_type(&params[i].taipe) {
            Err(e) => {
                return Err(e);
            },
            Ok(taipe) => {
                types.push(taipe);
            },
        }
        i = i + 1;
    }
    let mut results: Vec<ClType> = Vec::new();
    if !ret.is_void() {
        match get_cl_type(ret) {
            Err(e) => {
                return Err(e);
            },
            Ok(taipe) => {
                results.push(taipe);
            },
        }
    }
    assert(ret@.is_void() ==> results@ =~= Seq::<ClType>::empty());
    Ok(FunSig { params: types, results })
}

/// A function of the program: its name, what it takes and gives, and its instructions.
pub struct FunCode {
    pub name: String,
    pub sig: FunSig,
    pub ins: Vec<Ins>,
}

/// The model of a function of the program.
pub struct FunCodeView {
    pub name: Seq<char>,
    pub sig: FunSigView,
    pub ins: Seq<InsView>,
}

impl View for FunCode {
    type V = FunCodeView;

    open spec fn view(&self) -> FunCodeView {
        FunCodeView { name: self.name@, sig: self.sig@, ins: views(self.ins@) }
    }
}

/// The function that a scope stands for. It has a body.
pub open spec fn fun_code(scope: ScopeView) -> Result<FunCodeView, StopView> {
    match scope.payload {
        PayloadView::Function(info) => match info.taipe {
            TypeView::Function { ret, params } => match fun_sig(*ret, params) {
                Err(e) => Err(e),
                Ok(sig) => match info.ctx {
                    None => Err(
                        StopView::Unsupported("called `Option::unwrap()` on a `None` value"@),
                    ),
                    Some(ctx) => match ctx_code(ctx, seq![]) {
                        Err(e) => Err(e),
                        Ok(code) => Ok(
                            FunCodeView { name: scope.id.sym_path, sig, ins: code.ins },
                        ),
                    },
                },
            },
            _ => Err(StopView::Unsupported("probably some analyzer bug"@)),
        },
        _ => Err(StopView::Unsupported("probably some analyzer bug"@)),
    }
}

/// Generates the function that a scope stands for.
fn define_fun(pool: &ScopePool, index: usize) -> (r: Result<FunCode, Stop>)
    requires
        index < pool@.len(),
    ensures
        outcome(r) == fun_code(pool@[index as int]),
{
    broadcast use {group_context_models, lemma_views_empty};

    match &pool.pool[index].payload {
        Payload::Function(info) => match &info.taipe {
            Type::Function { ret, params } => match make_fun_sig(ret, params) {
                Err(e) => Err(e),
                Ok(sig) => match &info.ctx {
                    None => Err(
                        Stop::Unsupported("called `Option::unwrap()` on a `None` value".to_owned()),
                    ),
                    Some(ctx) => match gen_ctx(ctx, Vec::new()) {
                        Err(e) => Err(e),
                        Ok(code) => {
                            let name: String = pool.pool[index].id.sym_path.text.clone();
                            Ok(FunCode { name, sig, ins: code.ins })
                        },
                    },
                },
            },
            _ => Err(Stop::Unsupported("probably some analyzer bug".to_owned())),
        },
        _ => Err(Stop::Unsupported("probably some analyzer bug".to_owned())),
    }
}

/// The functions of a scope and of the scopes within it, after those that were found. Scopes
/// stand before the scopes within them.
pub open spec fn scope_code(pool: Seq<ScopeView>, index: int, found: Seq<FunCodeView>) -> Result<
    Seq<FunCodeView>,
    StopView,
>
    decreases pool.len() - index, 1nat, 0int,
{
    if index < 0 || index >= pool.len() {
        Err(StopView::Unsupported("invalid scope id"@))
    } else if pool[index].kind == ScopeKind::Function {
        match fun_code(pool[index]) {
            Err(e) => Err(e),
            Ok(function) => children_code(
                pool,
                index,
                pool[index].children.values,
                found.push(function),
                0,
            ),
        }
    } else {
        children_code(pool, index, pool[index].children.values, found, 0)
    }
}

/// The functions of several scopes within a scope from one on, after those that were found.
pub open spec fn children_code(
    pool: Seq<ScopeView>,
    index: int,
    children: Seq<ScopeIdView>,
    found: Seq<FunCodeView>,
    i: int,
) -> Result<Seq<FunCodeView>, StopView>
    decreases pool.len() - index, 0nat, children.len() - i,
{
    if i < 0 || i >= children.len() {
        Ok(found)
    } else if !(index < children[i].index < pool.len()) {
        Err(StopView::Unsupported("invalid scope id"@))
    } else {
        match scope_code(pool, children[i].index, found) {
            Err(e) => Err(e),
            Ok(more) => children_code(pool, index, children, more, i + 1),
        }
    }
}

/// The functions of a program.
pub struct Functions {
    pub list: Vec<FunCode>,
}

impl View for Functions {
    type V = Seq<FunCodeView>;

    open spec fn view(&self) -> Seq<FunCodeView> {
        views(self.list@)
    }
}

/// Generates the functions of a scope and of the scopes within it, after those that were found.
pub fn define_all_funs(pool: &ScopePool, index: usize, found: Vec<FunCode>) -> (r: Result<
    Functions,
    Stop,
>)
    ensures
        outcome(r) == scope_code(pool@, index as int, views(found@)),
    decreases pool@.len() - index, 1nat,
{
    broadcast use lemma_views_push;

    if index >= pool.pool.len() {
        return Err(Stop::Unsupported("invalid scope id".to_owned()));
    }
    assert(pool@[index as int] == pool.pool@[index as int]@);
    let mut list: Vec<FunCode> = found;
    if pool.pool[index].kind == ScopeKind::Function {
        match define_fun(pool, index) {
            Err(e) => {
                return Err(e);
            },
            Ok(function) => {
                list.push(function);
            },
        }
    }
    define_children(pool, index, list)
}

fn define_children(pool: &ScopePool, index: usize, found: Vec<FunCode>) -> (r: Result<
    Functions,
    Stop,
>)
    requires
        index < pool@.len(),
    ensures
        outcome(r) == children_code(
            pool@,
            index as int,
            pool@[index as int].children.values,
            views(found@),
            0,
        ),
    decreases pool@.len() - index, 0nat,
{
    let mut list: Vec<FunCode> = found;
    let mut i: usize = 0;
    let ghost children = pool@[index as int].children.values;
    let ghost goal = children_code(pool@, index as int, children, views(found@), 0);
    let table: &Table<ScopeId> = &pool.pool[index].children;
    assert(children == views(table.values@));
    while i < table.values.len()
        invariant
            index < pool@.len(),
            children == pool@[index as int].children.values,
            children == views(table.values@),
            i <= table.values@.len(),
            goal == children_code(pool@, index as int, children, views(found@), 0),
            goal == children_code(pool@, index as int, children, views(list@), i as int),
        decreases table.values@.len() - i,
    {
        assert(children[i as int] == table.values@[i as int]@);
        let child: usize = table.values[i].index;
        if child <= index || child >= pool.pool.len() {
            return Err(Stop::Unsupported("invalid scope id".to_owned()));
        }
        match define_all_funs(pool, child, list) {
            Err(e) => {
                return Err(e);
            },
            Ok(more) => {
                list = more.list;
            },
        }
        i = i + 1;
    }
    Ok(Functions { list })
}

} // verus!
