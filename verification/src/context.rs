use std::cmp::Ordering;

use vstd::prelude::*;

use crate::bigint::Int;
use crate::common::{option_view, LineInfo, Span};
use crate::scope::{ScopeId, ScopeIdView};
use crate::table::{set_names, Table, TableView};
use crate::text::{
    char_text, decimal, decimal_text, join2, join3, signed_decimal, signed_decimal_text, to_chars,
};

verus! {

/// A floating point number, held as the operations that give it: nothing is rounded before the
/// number is needed.
#[allow(inconsistent_fields)]
pub enum Float {
    FromInt(Int),
    FromSigned(i128),
    FromUnsigned(u128),
    Decimal { digits: Int, scale: i64 },
    Convert(Box<Float>),
    Neg(Box<Float>),
    Add(Box<Float>, Box<Float>),
    Sub(Box<Float>, Box<Float>),
    Mul(Box<Float>, Box<Float>),
    Div(Box<Float>, Box<Float>),
}

/// A parameter in the type of a function.
pub struct Param {
    pub taipe: Type,
}

/// A type of the intermediate representation.
#[allow(inconsistent_fields)]
pub enum Type {
    Bool,
    Char,
    VarInt,
    Int8,
    Int16,
    Int32,
    Int64,
    Int128,
    Uint8,
    Uint16,
    Uint32,
    Uint64,
    Uint128,
    Float32,
    Float64,
    Const(Box<Type>),
    Basic(ScopeId),
    Function { ret: Box<Type>, params: Vec<Param> },
    Pointer(Box<Type>),
    Array { count: usize, taipe: Box<Type> },
    Fat(Box<Type>),
    Tuple(Vec<Type>),
    Module,
    Typedef,
    Void,
    Noreturn,
}

/// An immediate value.
#[allow(inconsistent_fields)]
pub enum Imm {
    Bool(bool),
    Char(char),
    VarInt(Int),
    Int8(i8),
    Int16(i16),
    Int32(i32),
    Int64(i64),
    Int128(i128),
    Uint8(u8),
    Uint16(u16),
    Uint32(u32),
    Uint64(u64),
    Uint128(u128),
    Float32(Float),
    Float64(Float),
    Type(Type),
    Module(ScopeId),
    Null,
    Void,
}

/// A value: an immediate one, or an instruction that computes it.
#[allow(inconsistent_fields)]
pub enum Value {
    Imm(Imm),
    Array(Vec<Value>),
    Tuple(Vec<Value>),
    GetGlobal { line_info: LineInfo, scope_id: ScopeId },
    GetLocal { line_info: LineInfo, scope_id: ScopeId },
    GetField { line_info: LineInfo, lhs: Box<Context>, scope_id: ScopeId },
    SetGlobal { line_info: LineInfo, scope_id: ScopeId, rhs: Box<Context> },
    SetLocal { line_info: LineInfo, scope_id: ScopeId, rhs: Box<Context> },
    SetField { line_info: LineInfo, lhs: Box<Context>, scope_id: ScopeId, rhs: Box<Context> },
    Negate { line_info: LineInfo, ctx: Box<Context> },
    FlipBits { line_info: LineInfo, ctx: Box<Context> },
    Deref { line_info: LineInfo, ctx: Box<Context> },
    AddrOf { line_info: LineInfo, ctx: Box<Context> },
    Not { line_info: LineInfo, ctx: Box<Context> },
    Add { line_info: LineInfo, lhs: Box<Context>, rhs: Box<Context> },
    Sub { line_info: LineInfo, lhs: Box<Context>, rhs: Box<Context> },
    Mul { line_info: LineInfo, lhs: Box<Context>, rhs: Box<Context> },
    Div { line_info: LineInfo, lhs: Box<Context>, rhs: Box<Context> },
    Rem { line_info: LineInfo, lhs: Box<Context>, rhs: Box<Context> },
    Shl { line_info: LineInfo, lhs: Box<Context>, rhs: Box<Context> },
    Shr { line_info: LineInfo, lhs: Box<Context>, rhs: Box<Context> },
    BitAnd { line_info: LineInfo, lhs: Box<Context>, rhs: Box<Context> },
    BitXor { line_info: LineInfo, lhs: Box<Context>, rhs: Box<Context> },
    BitOr { line_info: LineInfo, lhs: Box<Context>, rhs: Box<Context> },
    Lt { line_info: LineInfo, lhs: Box<Context>, rhs: Box<Context> },
    Le { line_info: LineInfo, lhs: Box<Context>, rhs: Box<Context> },
    Eq { line_info: LineInfo, lhs: Box<Context>, rhs: Box<Context> },
    Ne { line_info: LineInfo, lhs: Box<Context>, rhs: Box<Context> },
    Ge { line_info: LineInfo, lhs: Box<Context>, rhs: Box<Context> },
    Gt { line_info: LineInfo, lhs: Box<Context>, rhs: Box<Context> },
    LogicAnd { line_info: LineInfo, lhs: Box<Context>, rhs: Box<Context> },
    LogicOr { line_info: LineInfo, lhs: Box<Context>, rhs: Box<Context> },
    Index { line_info: LineInfo, lhs: Box<Context>, index: Box<Context> },
    DirectCall { line_info: LineInfo, fun_scope_id: ScopeId, args: Table<Context> },
    IndirectCall { line_info: LineInfo, lhs: Box<Context>, args: Table<Context> },
    IfElse {
        line_info: LineInfo,
        cond: Box<Context>,
        then_ctx: Box<Context>,
        else_ctx: Box<Context>,
    },
    While { line_info: LineInfo, cond: Box<Context>, body_ctx: Box<Context> },
    Block(Vec<Context>),
    Ret(Box<Context>),
    RetVoid,
    Eval(Box<Context>),
    Cast(Box<Context>),
}

/// A value with its type.
pub struct Context {
    pub is_lvalue: bool,
    pub taipe: Type,
    pub value: Value,
}

/// The model: a floating point number, held as the operations that give it.
#[allow(inconsistent_fields)]
pub enum FloatView {
    FromInt(int),
    FromSigned(i128),
    FromUnsigned(u128),
    Decimal { digits: int, scale: i64 },
    Convert(Box<FloatView>),
    Neg(Box<FloatView>),
    Add(Box<FloatView>, Box<FloatView>),
    Sub(Box<FloatView>, Box<FloatView>),
    Mul(Box<FloatView>, Box<FloatView>),
    Div(Box<FloatView>, Box<FloatView>),
}

/// The model: a parameter in the type of a function.
pub struct ParamView {
    pub taipe: TypeView,
}

/// The model: a type of the intermediate representation.
#[allow(inconsistent_fields)]
pub enum TypeView {
    Bool,
    Char,
    VarInt,
    Int8,
    Int16,
    Int32,
    Int64,
    Int128,
    Uint8,
    Uint16,
    Uint32,
    Uint64,
    Uint128,
    Float32,
    Float64,
    Const(Box<TypeView>),
    Basic(ScopeIdView),
    Function { ret: Box<TypeView>, params: Seq<ParamView> },
    Pointer(Box<TypeView>),
    Array { count: usize, taipe: Box<TypeView> },
    Fat(Box<TypeView>),
    Tuple(Seq<TypeView>),
    Module,
    Typedef,
    Void,
    Noreturn,
}

/// The model: an immediate value.
#[allow(inconsistent_fields)]
pub enum ImmView {
    Bool(bool),
    Char(char),
    VarInt(int),
    Int8(i8),
    Int16(i16),
    Int32(i32),
    Int64(i64),
    Int128(i128),
    Uint8(u8),
    Uint16(u16),
    Uint32(u32),
    Uint64(u64),
    Uint128(u128),
    Float32(FloatView),
    Float64(FloatView),
    Type(TypeView),
    Module(ScopeIdView),
    Null,
    Void,
}

/// The model: a value: an immediate one, or an instruction that computes it.
#[allow(inconsistent_fields)]
pub enum ValueView {
    Imm(ImmView),
    Array(Seq<ValueView>),
    Tuple(Seq<ValueView>),
    GetGlobal { line_info: Span, scope_id: ScopeIdView },
    GetLocal { line_info: Span, scope_id: ScopeIdView },
    GetField { line_info: Span, lhs: Box<ContextView>, scope_id: ScopeIdView },
    SetGlobal { line_info: Span, scope_id: ScopeIdView, rhs: Box<ContextView> },
    SetLocal { line_info: Span, scope_id: ScopeIdView, rhs: Box<ContextView> },
    SetField {
        line_info: Span,
        lhs: Box<ContextView>,
        scope_id: ScopeIdView,
        rhs: Box<ContextView>,
    },
    Negate { line_info: Span, ctx: Box<ContextView> },
    FlipBits { line_info: Span, ctx: Box<ContextView> },
    Deref { line_info: Span, ctx: Box<ContextView> },
    AddrOf { line_info: Span, ctx: Box<ContextView> },
    Not { line_info: Span, ctx: Box<ContextView> },
    Add { line_info: Span, lhs: Box<ContextView>, rhs: Box<ContextView> },
    Sub { line_info: Span, lhs: Box<ContextView>, rhs: Box<ContextView> },
    Mul { line_info: Span, lhs: Box<ContextView>, rhs: Box<ContextView> },
    Div { line_info: Span, lhs: Box<ContextView>, rhs: Box<ContextView> },
    Rem { line_info: Span, lhs: Box<ContextView>, rhs: Box<ContextView> },
    Shl { line_info: Span, lhs: Box<ContextView>, rhs: Box<ContextView> },
    Shr { line_info: Span, lhs: Box<ContextView>, rhs: Box<ContextView> },
    BitAnd { line_info: Span, lhs: Box<ContextView>, rhs: Box<ContextView> },
    BitXor { line_info: Span, lhs: Box<ContextView>, rhs: Box<ContextView> },
    BitOr { line_info: Span, lhs: Box<ContextView>, rhs: Box<ContextView> },
    Lt { line_info: Span, lhs: Box<ContextView>, rhs: Box<ContextView> },
    Le { line_info: Span, lhs: Box<ContextView>, rhs: Box<ContextView> },
    Eq { line_info: Span, lhs: Box<ContextView>, rhs: Box<ContextView> },
    Ne { line_info: Span, lhs: Box<ContextView>, rhs: Box<ContextView> },
    Ge { line_info: Span, lhs: Box<ContextView>, rhs: Box<ContextView> },
    Gt { line_info: Span, lhs: Box<ContextView>, rhs: Box<ContextView> },
    LogicAnd { line_info: Span, lhs: Box<ContextView>, rhs: Box<ContextView> },
    LogicOr { line_info: Span, lhs: Box<ContextView>, rhs: Box<ContextView> },
    Index { line_info: Span, lhs: Box<ContextView>, index: Box<ContextView> },
    DirectCall { line_info: Span, fun_scope_id: ScopeIdView, args: TableView<ContextView> },
    IndirectCall { line_info: Span, lhs: Box<ContextView>, args: TableView<ContextView> },
    IfElse {
        line_info: Span,
        cond: Box<ContextView>,
        then_ctx: Box<ContextView>,
        else_ctx: Box<ContextView>,
    },
    While { line_info: Span, cond: Box<ContextView>, body_ctx: Box<ContextView> },
    Block(Seq<ContextView>),
    Ret(Box<ContextView>),
    RetVoid,
    Eval(Box<ContextView>),
    Cast(Box<ContextView>),
}

/// The model: a value with its type.
pub struct ContextView {
    pub is_lvalue: bool,
    pub taipe: TypeView,
    pub value: ValueView,
}

impl Float {
    /// The model.
    pub open spec fn model(self) -> FloatView
        decreases self,
    {
        match self {
            Float::FromInt(x) => FloatView::FromInt(x@),
            Float::FromSigned(x) => FloatView::FromSigned(x),
            Float::FromUnsigned(x) => FloatView::FromUnsigned(x),
            Float::Decimal { digits, scale } => FloatView::Decimal {
                digits: digits@,
                scale: scale,
            },
            Float::Convert(x) => FloatView::Convert(Box::new(x.model())),
            Float::Neg(x) => FloatView::Neg(Box::new(x.model())),
            Float::Add(x, y) => FloatView::Add(Box::new(x.model()), Box::new(y.model())),
            Float::Sub(x, y) => FloatView::Sub(Box::new(x.model()), Box::new(y.model())),
            Float::Mul(x, y) => FloatView::Mul(Box::new(x.model()), Box::new(y.model())),
            Float::Div(x, y) => FloatView::Div(Box::new(x.model()), Box::new(y.model())),
        }
    }
}

impl View for Float {
    type V = FloatView;

    open spec fn view(&self) -> FloatView {
        self.model()
    }
}

impl Param {
    /// The model.
    pub open spec fn model(self) -> ParamView
        decreases self,
    {
        ParamView {
            taipe: self.taipe.model(),
        }
    }
}

impl View for Param {
    type V = ParamView;

    open spec fn view(&self) -> ParamView {
        self.model()
    }
}

impl Type {
    /// The model.
    pub open spec fn model(self) -> TypeView
        decreases self,
    {
        match self {
            Type::Bool => TypeView::Bool,
            Type::Char => TypeView::Char,
            Type::VarInt => TypeView::VarInt,
            Type::Int8 => TypeView::Int8,
            Type::Int16 => TypeView::Int16,
            Type::Int32 => TypeView::Int32,
            Type::Int64 => TypeView::Int64,
            Type::Int128 => TypeView::Int128,
            Type::Uint8 => TypeView::Uint8,
            Type::Uint16 => TypeView::Uint16,
            Type::Uint32 => TypeView::Uint32,
            Type::Uint64 => TypeView::Uint64,
            Type::Uint128 => TypeView::Uint128,
            Type::Float32 => TypeView::Float32,
            Type::Float64 => TypeView::Float64,
            Type::Const(x) => TypeView::Const(Box::new(x.model())),
            Type::Basic(x) => TypeView::Basic(x@),
            Type::Function { ret, params } => TypeView::Function {
                ret: Box::new(ret.model()),
                params: param_models(params@),
            },
            Type::Pointer(x) => TypeView::Pointer(Box::new(x.model())),
            Type::Array { count, taipe } => TypeView::Array {
                count: count,
                taipe: Box::new(taipe.model()),
            },
            Type::Fat(x) => TypeView::Fat(Box::new(x.model())),
            Type::Tuple(x) => TypeView::Tuple(type_models(x@)),
            Type::Module => TypeView::Module,
            Type::Typedef => TypeView::Typedef,
            Type::Void => TypeView::Void,
            Type::Noreturn => TypeView::Noreturn,
        }
    }
}

impl View for Type {
    type V = TypeView;

    open spec fn view(&self) -> TypeView {
        self.model()
    }
}

impl Imm {
    /// The model.
    pub open spec fn model(self) -> ImmView
        decreases self,
    {
        match self {
            Imm::Bool(x) => ImmView::Bool(x),
            Imm::Char(x) => ImmView::Char(x),
            Imm::VarInt(x) => ImmView::VarInt(x@),
            Imm::Int8(x) => ImmView::Int8(x),
            Imm::Int16(x) => ImmView::Int16(x),
            Imm::Int32(x) => ImmView::Int32(x),
            Imm::Int64(x) => ImmView::Int64(x),
            Imm::Int128(x) => ImmView::Int128(x),
            Imm::Uint8(x) => ImmView::Uint8(x),
            Imm::Uint16(x) => ImmView::Uint16(x),
            Imm::Uint32(x) => ImmView::Uint32(x),
            Imm::Uint64(x) => ImmView::Uint64(x),
            Imm::Uint128(x) => ImmView::Uint128(x),
            Imm::Float32(x) => ImmView::Float32(x.model()),
            Imm::Float64(x) => ImmView::Float64(x.model()),
            Imm::Type(x) => ImmView::Type(x.model()),
            Imm::Module(x) => ImmView::Module(x@),
            Imm::Null => ImmView::Null,
            Imm::Void => ImmView::Void,
        }
    }
}

impl View for Imm {
    type V = ImmView;

    open spec fn view(&self) -> ImmView {
        self.model()
    }
}

impl Value {
    /// The model.
    #[verifier::opaque]
    pub open spec fn model(self) -> ValueView
        decreases self,
    {
        match self {
            Value::Imm(x) => ValueView::Imm(x.model()),
            Value::Array(x) => ValueView::Array(value_models(x@)),
            Value::Tuple(x) => ValueView::Tuple(value_models(x@)),
            Value::GetGlobal { line_info, scope_id } => ValueView::GetGlobal {
                line_info: line_info@,
                scope_id: scope_id@,
            },
            Value::GetLocal { line_info, scope_id } => ValueView::GetLocal {
                line_info: line_info@,
                scope_id: scope_id@,
            },
            Value::GetField { line_info, lhs, scope_id } => ValueView::GetField {
                line_info: line_info@,
                lhs: Box::new(lhs.model()),
                scope_id: scope_id@,
            },
            Value::SetGlobal { line_info, scope_id, rhs } => ValueView::SetGlobal {
                line_info: line_info@,
                scope_id: scope_id@,
                rhs: Box::new(rhs.model()),
            },
            Value::SetLocal { line_info, scope_id, rhs } => ValueView::SetLocal {
                line_info: line_info@,
                scope_id: scope_id@,
                rhs: Box::new(rhs.model()),
            },
            Value::SetField { line_info, lhs, scope_id, rhs } => ValueView::SetField {
                line_info: line_info@,
                lhs: Box::new(lhs.model()),
                scope_id: scope_id@,
                rhs: Box::new(rhs.model()),
            },
            Value::Negate { line_info, ctx } => ValueView::Negate {
                line_info: line_info@,
                ctx: Box::new(ctx.model()),
            },
            Value::FlipBits { line_info, ctx } => ValueView::FlipBits {
                line_info: line_info@,
                ctx: Box::new(ctx.model()),
            },
            Value::Deref { line_info, ctx } => ValueView::Deref {
                line_info: line_info@,
                ctx: Box::new(ctx.model()),
            },
            Value::AddrOf { line_info, ctx } => ValueView::AddrOf {
                line_info: line_info@,
                ctx: Box::new(ctx.model()),
            },
            Value::Not { line_info, ctx } => ValueView::Not {
                line_info: line_info@,
                ctx: Box::new(ctx.model()),
            },
            Value::Add { line_info, lhs, rhs } => ValueView::Add {
                line_info: line_info@,
                lhs: Box::new(lhs.model()),
                rhs: Box::new(rhs.model()),
            },
            Value::Sub { line_info, lhs, rhs } => ValueView::Sub {
                line_info: line_info@,
                lhs: Box::new(lhs.model()),
                rhs: Box::new(rhs.model()),
            },
            Value::Mul { line_info, lhs, rhs } => ValueView::Mul {
                line_info: line_info@,
                lhs: Box::new(lhs.model()),
                rhs: Box::new(rhs.model()),
            },
            Value::Div { line_info, lhs, rhs } => ValueView::Div {
                line_info: line_info@,
                lhs: Box::new(lhs.model()),
                rhs: Box::new(rhs.model()),
            },
            Value::Rem { line_info, lhs, rhs } => ValueView::Rem {
                line_info: line_info@,
                lhs: Box::new(lhs.model()),
                rhs: Box::new(rhs.model()),
            },
            Value::Shl { line_info, lhs, rhs } => ValueView::Shl {
                line_info: line_info@,
                lhs: Box::new(lhs.model()),
                rhs: Box::new(rhs.model()),
            },
            Value::Shr { line_info, lhs, rhs } => ValueView::Shr {
                line_info: line_info@,
                lhs: Box::new(lhs.model()),
                rhs: Box::new(rhs.model()),
            },
            Value::BitAnd { line_info, lhs, rhs } => ValueView::BitAnd {
                line_info: line_info@,
                lhs: Box::new(lhs.model()),
                rhs: Box::new(rhs.model()),
            },
            Value::BitXor { line_info, lhs, rhs } => ValueView::BitXor {
                line_info: line_info@,
                lhs: Box::new(lhs.model()),
                rhs: Box::new(rhs.model()),
            },
            Value::BitOr { line_info, lhs, rhs } => ValueView::BitOr {
                line_info: line_info@,
                lhs: Box::new(lhs.model()),
                rhs: Box::new(rhs.model()),
            },
            Value::Lt { line_info, lhs, rhs } => ValueView::Lt {
                line_info: line_info@,
                lhs: Box::new(lhs.model()),
                rhs: Box::new(rhs.model()),
            },
            Value::Le { line_info, lhs, rhs } => ValueView::Le {
                line_info: line_info@,
                lhs: Box::new(lhs.model()),
                rhs: Box::new(rhs.model()),
            },
            Value::Eq { line_info, lhs, rhs } => ValueView::Eq {
                line_info: line_info@,
                lhs: Box::new(lhs.model()),
                rhs: Box::new(rhs.model()),
            },
            Value::Ne { line_info, lhs, rhs } => ValueView::Ne {
                line_info: line_info@,
                lhs: Box::new(lhs.model()),
                rhs: Box::new(rhs.model()),
            },
            Value::Ge { line_info, lhs, rhs } => ValueView::Ge {
                line_info: line_info@,
                lhs: Box::new(lhs.model()),
                rhs: Box::new(rhs.model()),
            },
            Value::Gt { line_info, lhs, rhs } => ValueView::Gt {
                line_info: line_info@,
                lhs: Box::new(lhs.model()),
                rhs: Box::new(rhs.model()),
            },
            Value::LogicAnd { line_info, lhs, rhs } => ValueView::LogicAnd {
                line_info: line_info@,
                lhs: Box::new(lhs.model()),
                rhs: Box::new(rhs.model()),
            },
            Value::LogicOr { line_info, lhs, rhs } => ValueView::LogicOr {
                line_info: line_info@,
                lhs: Box::new(lhs.model()),
                rhs: Box::new(rhs.model()),
            },
            Value::Index { line_info, lhs, index } => ValueView::Index {
                line_info: line_info@,
                lhs: Box::new(lhs.model()),
                index: Box::new(index.model()),
            },
            Value::DirectCall { line_info, fun_scope_id, args } => ValueView::DirectCall {
                line_info: line_info@,
                fun_scope_id: fun_scope_id@,
                args: TableView {
                    names: set_names(args.names),
                    values: context_models(args.values@),
                },
            },
            Value::IndirectCall { line_info, lhs, args } => ValueView::IndirectCall {
                line_info: line_info@,
                lhs: Box::new(lhs.model()),
                args: TableView {
                    names: set_names(args.names),
                    values: context_models(args.values@),
                },
            },
            Value::IfElse { line_info, cond, then_ctx, else_ctx } => ValueView::IfElse {
                line_info: line_info@,
                cond: Box::new(cond.model()),
                then_ctx: Box::new(then_ctx.model()),
                else_ctx: Box::new(else_ctx.model()),
            },
            Value::While { line_info, cond, body_ctx } => ValueView::While {
                line_info: line_info@,
                cond: Box::new(cond.model()),
                body_ctx: Box::new(body_ctx.model()),
            },
            Value::Block(x) => ValueView::Block(context_models(x@)),
            Value::Ret(x) => ValueView::Ret(Box::new(x.model())),
            Value::RetVoid => ValueView::RetVoid,
            Value::Eval(x) => ValueView::Eval(Box::new(x.model())),
            Value::Cast(x) => ValueView::Cast(Box::new(x.model())),
        }
    }
}

impl View for Value {
    type V = ValueView;

    open spec fn view(&self) -> ValueView {
        self.model()
    }
}

impl Context {
    /// The model.
    #[verifier::opaque]
    pub open spec fn model(self) -> ContextView
        decreases self,
    {
        ContextView {
            is_lvalue: self.is_lvalue,
            taipe: self.taipe.model(),
            value: self.value.model(),
        }
    }
}

impl View for Context {
    type V = ContextView;

    open spec fn view(&self) -> ContextView {
        self.model()
    }
}

/// The models of several items.
pub open spec fn param_models(items: Seq<Param>) -> Seq<ParamView>
    decreases items,
{
    Seq::new(
        items.len(),
        |i: int|
            if 0 <= i < items.len() {
                items[i].model()
            } else {
                arbitrary()
            },
    )
}

/// The models of several items.
pub open spec fn type_models(items: Seq<Type>) -> Seq<TypeView>
    decreases items,
{
    Seq::new(
        items.len(),
        |i: int|
            if 0 <= i < items.len() {
                items[i].model()
            } else {
                arbitrary()
            },
    )
}

/// The models of several items.
#[verifier::opaque]
pub open spec fn value_models(items: Seq<Value>) -> Seq<ValueView>
    decreases items,
{
    Seq::new(
        items.len(),
        |i: int|
            if 0 <= i < items.len() {
                items[i].model()
            } else {
                arbitrary()
            },
    )
}

/// The models of several items.
#[verifier::opaque]
pub open spec fn context_models(items: Seq<Context>) -> Seq<ContextView>
    decreases items,
{
    Seq::new(
        items.len(),
        |i: int|
            if 0 <= i < items.len() {
                items[i].model()
            } else {
                arbitrary()
            },
    )
}

/// There is one model for each item.
pub broadcast proof fn lemma_param_models_len(items: Seq<Param>)
    ensures
        (#[trigger] param_models(items)).len() == items.len(),
{
}

/// The models stand in the order of the items.
pub broadcast proof fn lemma_param_models_index(items: Seq<Param>, i: int)
    requires
        0 <= i < items.len(),
    ensures
        #[trigger] param_models(items)[i] == items[i]@,
{
}

/// There is one model for each item.
pub broadcast proof fn lemma_type_models_len(items: Seq<Type>)
    ensures
        (#[trigger] type_models(items)).len() == items.len(),
{
}

/// The models stand in the order of the items.
pub broadcast proof fn lemma_type_models_index(items: Seq<Type>, i: int)
    requires
        0 <= i < items.len(),
    ensures
        #[trigger] type_models(items)[i] == items[i]@,
{
}

/// There is one model for each item.
pub broadcast proof fn lemma_value_models_len(items: Seq<Value>)
    ensures
        (#[trigger] value_models(items)).len() == items.len(),
{
    reveal(value_models);
}

/// The models stand in the order of the items.
pub broadcast proof fn lemma_value_models_index(items: Seq<Value>, i: int)
    requires
        0 <= i < items.len(),
    ensures
        #[trigger] value_models(items)[i] == items[i]@,
{
    reveal(value_models);
    reveal(Value::model);
}

/// There is one model for each item.
pub broadcast proof fn lemma_context_models_len(items: Seq<Context>)
    ensures
        (#[trigger] context_models(items)).len() == items.len(),
{
    reveal(context_models);
}

/// The models stand in the order of the items.
pub broadcast proof fn lemma_context_models_index(items: Seq<Context>, i: int)
    requires
        0 <= i < items.len(),
    ensures
        #[trigger] context_models(items)[i] == items[i]@,
{
    reveal(context_models);
    reveal(Context::model);
}

/// The models of items with one more item.
pub broadcast proof fn lemma_param_models_push(items: Seq<Param>, item: Param)
    ensures
        #[trigger] param_models(items.push(item)) == param_models(items).push(item@),
{
    assert(param_models(items.push(item)) =~= param_models(items).push(item@));
}

/// The models of no items.
pub broadcast proof fn lemma_param_models_empty(items: Seq<Param>)
    ensures
        items.len() == 0 ==> #[trigger] param_models(items) == Seq::<ParamView>::empty(),
{
    assert(items.len() == 0 ==> param_models(items) =~= Seq::<ParamView>::empty());
}

/// The models of items with one more item.
pub broadcast proof fn lemma_type_models_push(items: Seq<Type>, item: Type)
    ensures
        #[trigger] type_models(items.push(item)) == type_models(items).push(item@),
{
    assert(type_models(items.push(item)) =~= type_models(items).push(item@));
}

/// The models of no items.
pub broadcast proof fn lemma_type_models_empty(items: Seq<Type>)
    ensures
        items.len() == 0 ==> #[trigger] type_models(items) == Seq::<TypeView>::empty(),
{
    assert(items.len() == 0 ==> type_models(items) =~= Seq::<TypeView>::empty());
}

/// The models of items with one more item.
pub broadcast proof fn lemma_value_models_push(items: Seq<Value>, item: Value)
    ensures
        #[trigger] value_models(items.push(item)) == value_models(items).push(item@),
{
    broadcast use {lemma_value_models_len, lemma_value_models_index};

    assert(value_models(items.push(item)) =~= value_models(items).push(item@));
}

/// The models of no items.
pub broadcast proof fn lemma_value_models_empty(items: Seq<Value>)
    ensures
        items.len() == 0 ==> #[trigger] value_models(items) == Seq::<ValueView>::empty(),
{
    broadcast use {lemma_value_models_len, lemma_value_models_index};

    assert(items.len() == 0 ==> value_models(items) =~= Seq::<ValueView>::empty());
}

/// The models of items with one more item.
pub broadcast proof fn lemma_context_models_push(items: Seq<Context>, item: Context)
    ensures
        #[trigger] context_models(items.push(item)) == context_models(items).push(item@),
{
    broadcast use {lemma_context_models_len, lemma_context_models_index};

    assert(context_models(items.push(item)) =~= context_models(items).push(item@));
}

/// The models of no items.
pub broadcast proof fn lemma_context_models_empty(items: Seq<Context>)
    ensures
        items.len() == 0 ==> #[trigger] context_models(items) == Seq::<ContextView>::empty(),
{
    broadcast use {lemma_context_models_len, lemma_context_models_index};

    assert(items.len() == 0 ==> context_models(items) =~= Seq::<ContextView>::empty());
}

/// What is known of the models of several items.
pub broadcast group group_context_models {
    lemma_value_models_len,
    lemma_value_models_index,
    lemma_context_models_len,
    lemma_context_models_index,
    lemma_type_models_len,
    lemma_type_models_index,
    lemma_param_models_len,
    lemma_param_models_index,
    lemma_param_models_push,
    lemma_param_models_empty,
    lemma_type_models_push,
    lemma_type_models_empty,
    lemma_value_models_push,
    lemma_value_models_empty,
    lemma_context_models_push,
    lemma_context_models_empty,
}

impl Float {
    /// A copy.
    pub fn copy(&self) -> (r: Self)
        ensures
            r@ == self@,
        decreases self,
    {
        match self {
            Float::FromInt(x) => Float::FromInt(x.copy()),
            Float::FromSigned(x) => Float::FromSigned(*x),
            Float::FromUnsigned(x) => Float::FromUnsigned(*x),
            Float::Decimal { digits, scale } => Float::Decimal {
                digits: digits.copy(),
                scale: *scale,
            },
            Float::Convert(x) => Float::Convert(Box::new(x.copy())),
            Float::Neg(x) => Float::Neg(Box::new(x.copy())),
            Float::Add(x, y) => Float::Add(Box::new(x.copy()), Box::new(y.copy())),
            Float::Sub(x, y) => Float::Sub(Box::new(x.copy()), Box::new(y.copy())),
            Float::Mul(x, y) => Float::Mul(Box::new(x.copy()), Box::new(y.copy())),
            Float::Div(x, y) => Float::Div(Box::new(x.copy()), Box::new(y.copy())),
        }
    }
}

impl Param {
    /// A copy.
    pub fn copy(&self) -> (r: Self)
        ensures
            r@ == self@,
        decreases self,
    {
        Param { taipe: self.taipe.copy() }
    }
}

impl Type {
    /// A copy.
    pub fn copy(&self) -> (r: Self)
        ensures
            r@ == self@,
        decreases self,
    {
        match self {
            Type::Bool => Type::Bool,
            Type::Char => Type::Char,
            Type::VarInt => Type::VarInt,
            Type::Int8 => Type::Int8,
            Type::Int16 => Type::Int16,
            Type::Int32 => Type::Int32,
            Type::Int64 => Type::Int64,
            Type::Int128 => Type::Int128,
            Type::Uint8 => Type::Uint8,
            Type::Uint16 => Type::Uint16,
            Type::Uint32 => Type::Uint32,
            Type::Uint64 => Type::Uint64,
            Type::Uint128 => Type::Uint128,
            Type::Float32 => Type::Float32,
            Type::Float64 => Type::Float64,
            Type::Const(x) => Type::Const(Box::new(x.copy())),
            Type::Basic(x) => Type::Basic(x.copy()),
            Type::Function { ret, params } => Type::Function {
                ret: Box::new(ret.copy()),
                params: copy_params(params),
            },
            Type::Pointer(x) => Type::Pointer(Box::new(x.copy())),
            Type::Array { count, taipe } => Type::Array {
                count: *count,
                taipe: Box::new(taipe.copy()),
            },
            Type::Fat(x) => Type::Fat(Box::new(x.copy())),
            Type::Tuple(x) => Type::Tuple(copy_types(x)),
            Type::Module => Type::Module,
            Type::Typedef => Type::Typedef,
            Type::Void => Type::Void,
            Type::Noreturn => Type::Noreturn,
        }
    }
}

impl Imm {
    /// A copy.
    pub fn copy(&self) -> (r: Self)
        ensures
            r@ == self@,
        decreases self,
    {
        match self {
            Imm::Bool(x) => Imm::Bool(*x),
            Imm::Char(x) => Imm::Char(*x),
            Imm::VarInt(x) => Imm::VarInt(x.copy()),
            Imm::Int8(x) => Imm::Int8(*x),
            Imm::Int16(x) => Imm::Int16(*x),
            Imm::Int32(x) => Imm::Int32(*x),
            Imm::Int64(x) => Imm::Int64(*x),
            Imm::Int128(x) => Imm::Int128(*x),
            Imm::Uint8(x) => Imm::Uint8(*x),
            Imm::Uint16(x) => Imm::Uint16(*x),
            Imm::Uint32(x) => Imm::Uint32(*x),
            Imm::Uint64(x) => Imm::Uint64(*x),
            Imm::Uint128(x) => Imm::Uint128(*x),
            Imm::Float32(x) => Imm::Float32(x.copy()),
            Imm::Float64(x) => Imm::Float64(x.copy()),
            Imm::Type(x) => Imm::Type(x.copy()),
            Imm::Module(x) => Imm::Module(x.copy()),
            Imm::Null => Imm::Null,
            Imm::Void => Imm::Void,
        }
    }
}

impl Value {
    /// A copy.
    pub fn copy(&self) -> (r: Self)
        ensures
            r@ == self@,
        decreases self,
    {
        proof {
            reveal(Value::model);
            reveal(Context::model);
            reveal(value_models);
            reveal(context_models);
        }
        match self {
            Value::Imm(x) => Value::Imm(x.copy()),
            Value::Array(x) => Value::Array(copy_values(x)),
            Value::Tuple(x) => Value::Tuple(copy_values(x)),
            Value::GetGlobal { line_info, scope_id } => Value::GetGlobal {
                line_info: *line_info,
                scope_id: scope_id.copy(),
            },
            Value::GetLocal { line_info, scope_id } => Value::GetLocal {
                line_info: *line_info,
                scope_id: scope_id.copy(),
            },
            Value::GetField { line_info, lhs, scope_id } => Value::GetField {
                line_info: *line_info,
                lhs: Box::new(lhs.copy()),
                scope_id: scope_id.copy(),
            },
            Value::SetGlobal { line_info, scope_id, rhs } => Value::SetGlobal {
                line_info: *line_info,
                scope_id: scope_id.copy(),
                rhs: Box::new(rhs.copy()),
            },
            Value::SetLocal { line_info, scope_id, rhs } => Value::SetLocal {
                line_info: *line_info,
                scope_id: scope_id.copy(),
                rhs: Box::new(rhs.copy()),
            },
            Value::SetField { line_info, lhs, scope_id, rhs } => Value::SetField {
                line_info: *line_info,
                lhs: Box::new(lhs.copy()),
                scope_id: scope_id.copy(),
                rhs: Box::new(rhs.copy()),
            },
            Value::Negate { line_info, ctx } => Value::Negate {
                line_info: *line_info,
                ctx: Box::new(ctx.copy()),
            },
            Value::FlipBits { line_info, ctx } => Value::FlipBits {
                line_info: *line_info,
                ctx: Box::new(ctx.copy()),
            },
            Value::Deref { line_info, ctx } => Value::Deref {
                line_info: *line_info,
                ctx: Box::new(ctx.copy()),
            },
            Value::AddrOf { line_info, ctx } => Value::AddrOf {
                line_info: *line_info,
                ctx: Box::new(ctx.copy()),
            },
            Value::Not { line_info, ctx } => Value::Not {
                line_info: *line_info,
                ctx: Box::new(ctx.copy()),
            },
            Value::Add { line_info, lhs, rhs } => Value::Add {
                line_info: *line_info,
                lhs: Box::new(lhs.copy()),
                rhs: Box::new(rhs.copy()),
            },
            Value::Sub { line_info, lhs, rhs } => Value::Sub {
                line_info: *line_info,
                lhs: Box::new(lhs.copy()),
                rhs: Box::new(rhs.copy()),
            },
            Value::Mul { line_info, lhs, rhs } => Value::Mul {
                line_info: *line_info,
                lhs: Box::new(lhs.copy()),
                rhs: Box::new(rhs.copy()),
            },
            Value::Div { line_info, lhs, rhs } => Value::Div {
                line_info: *line_info,
                lhs: Box::new(lhs.copy()),
                rhs: Box::new(rhs.copy()),
            },
            Value::Rem { line_info, lhs, rhs } => Value::Rem {
                line_info: *line_info,
                lhs: Box::new(lhs.copy()),
                rhs: Box::new(rhs.copy()),
            },
            Value::Shl { line_info, lhs, rhs } => Value::Shl {
                line_info: *line_info,
                lhs: Box::new(lhs.copy()),
                rhs: Box::new(rhs.copy()),
            },
            Value::Shr { line_info, lhs, rhs } => Value::Shr {
                line_info: *line_info,
                lhs: Box::new(lhs.copy()),
                rhs: Box::new(rhs.copy()),
            },
            Value::BitAnd { line_info, lhs, rhs } => Value::BitAnd {
                line_info: *line_info,
                lhs: Box::new(lhs.copy()),
                rhs: Box::new(rhs.copy()),
            },
            Value::BitXor { line_info, lhs, rhs } => Value::BitXor {
                line_info: *line_info,
                lhs: Box::new(lhs.copy()),
                rhs: Box::new(rhs.copy()),
            },
            Value::BitOr { line_info, lhs, rhs } => Value::BitOr {
                line_info: *line_info,
                lhs: Box::new(lhs.copy()),
                rhs: Box::new(rhs.copy()),
            },
            Value::Lt { line_info, lhs, rhs } => Value::Lt {
                line_info: *line_info,
                lhs: Box::new(lhs.copy()),
                rhs: Box::new(rhs.copy()),
            },
            Value::Le { line_info, lhs, rhs } => Value::Le {
                line_info: *line_info,
                lhs: Box::new(lhs.copy()),
                rhs: Box::new(rhs.copy()),
            },
            Value::Eq { line_info, lhs, rhs } => Value::Eq {
                line_info: *line_info,
                lhs: Box::new(lhs.copy()),
                rhs: Box::new(rhs.copy()),
            },
            Value::Ne { line_info, lhs, rhs } => Value::Ne {
                line_info: *line_info,
                lhs: Box::new(lhs.copy()),
                rhs: Box::new(rhs.copy()),
            },
            Value::Ge { line_info, lhs, rhs } => Value::Ge {
                line_info: *line_info,
                lhs: Box::new(lhs.copy()),
                rhs: Box::new(rhs.copy()),
            },
            Value::Gt { line_info, lhs, rhs } => Value::Gt {
                line_info: *line_info,
                lhs: Box::new(lhs.copy()),
                rhs: Box::new(rhs.copy()),
            },
            Value::LogicAnd { line_info, lhs, rhs } => Value::LogicAnd {
                line_info: *line_info,
                lhs: Box::new(lhs.copy()),
                rhs: Box::new(rhs.copy()),
            },
            Value::LogicOr { line_info, lhs, rhs } => Value::LogicOr {
                line_info: *line_info,
                lhs: Box::new(lhs.copy()),
                rhs: Box::new(rhs.copy()),
            },
            Value::Index { line_info, lhs, index } => Value::Index {
                line_info: *line_info,
                lhs: Box::new(lhs.copy()),
                index: Box::new(index.copy()),
            },
            Value::DirectCall { line_info, fun_scope_id, args } => Value::DirectCall {
                line_info: *line_info,
                fun_scope_id: fun_scope_id.copy(),
                args: copy_table(args),
            },
            Value::IndirectCall { line_info, lhs, args } => Value::IndirectCall {
                line_info: *line_info,
                lhs: Box::new(lhs.copy()),
                args: copy_table(args),
            },
            Value::IfElse { line_info, cond, then_ctx, else_ctx } => Value::IfElse {
                line_info: *line_info,
                cond: Box::new(cond.copy()),
                then_ctx: Box::new(then_ctx.copy()),
                else_ctx: Box::new(else_ctx.copy()),
            },
            Value::While { line_info, cond, body_ctx } => Value::While {
                line_info: *line_info,
                cond: Box::new(cond.copy()),
                body_ctx: Box::new(body_ctx.copy()),
            },
            Value::Block(x) => Value::Block(copy_contexts(x)),
            Value::Ret(x) => Value::Ret(Box::new(x.copy())),
            Value::RetVoid => Value::RetVoid,
            Value::Eval(x) => Value::Eval(Box::new(x.copy())),
            Value::Cast(x) => Value::Cast(Box::new(x.copy())),
        }
    }
}

impl Context {
    /// A copy.
    pub fn copy(&self) -> (r: Self)
        ensures
            r@ == self@,
        decreases self,
    {
        proof {
            reveal(Value::model);
            reveal(Context::model);
            reveal(value_models);
            reveal(context_models);
        }
        Context { is_lvalue: self.is_lvalue, taipe: self.taipe.copy(), value: self.value.copy() }
    }
}

/// Copies of several items.
pub fn copy_params(items: &Vec<Param>) -> (r: Vec<Param>)
    ensures
        param_models(r@) == param_models(items@),
        r@.len() == items@.len(),
    decreases items,
{
    let mut copies: Vec<Param> = Vec::new();
    let mut i: usize = 0;
    while i < items.len()
        invariant
            i <= items@.len(),
            copies@.len() == i,
            forall|k: int| 0 <= k < i ==> (#[trigger] copies@[k])@ == items@[k]@,
        decreases items@.len() - i,
    {
        assert(decreases_to!(items => items@[i as int]));
        copies.push(items[i].copy());
        i = i + 1;
    }
    assert(param_models(copies@) =~= param_models(items@));
    copies
}

/// Copies of several items.
pub fn copy_types(items: &Vec<Type>) -> (r: Vec<Type>)
    ensures
        type_models(r@) == type_models(items@),
        r@.len() == items@.len(),
    decreases items,
{
    let mut copies: Vec<Type> = Vec::new();
    let mut i: usize = 0;
    while i < items.len()
        invariant
            i <= items@.len(),
            copies@.len() == i,
            forall|k: int| 0 <= k < i ==> (#[trigger] copies@[k])@ == items@[k]@,
        decreases items@.len() - i,
    {
        assert(decreases_to!(items => items@[i as int]));
        copies.push(items[i].copy());
        i = i + 1;
    }
    assert(type_models(copies@) =~= type_models(items@));
    copies
}

/// Copies of several items.
pub fn copy_values(items: &Vec<Value>) -> (r: Vec<Value>)
    ensures
        value_models(r@) == value_models(items@),
        r@.len() == items@.len(),
    decreases items,
{
    broadcast use group_context_models;

    let mut copies: Vec<Value> = Vec::new();
    let mut i: usize = 0;
    while i < items.len()
        invariant
            i <= items@.len(),
            copies@.len() == i,
            forall|k: int| 0 <= k < i ==> (#[trigger] copies@[k])@ == items@[k]@,
        decreases items@.len() - i,
    {
        assert(decreases_to!(items => items@[i as int]));
        copies.push(items[i].copy());
        i = i + 1;
    }
    assert(value_models(copies@) =~= value_models(items@));
    copies
}

/// Copies of several items.
pub fn copy_contexts(items: &Vec<Context>) -> (r: Vec<Context>)
    ensures
        context_models(r@) == context_models(items@),
        r@.len() == items@.len(),
    decreases items,
{
    broadcast use group_context_models;

    let mut copies: Vec<Context> = Vec::new();
    let mut i: usize = 0;
    while i < items.len()
        invariant
            i <= items@.len(),
            copies@.len() == i,
            forall|k: int| 0 <= k < i ==> (#[trigger] copies@[k])@ == items@[k]@,
        decreases items@.len() - i,
    {
        assert(decreases_to!(items => items@[i as int]));
        copies.push(items[i].copy());
        i = i + 1;
    }
    assert(context_models(copies@) =~= context_models(items@));
    copies
}

/// A copy of a table.
pub fn copy_table(table: &Table<Context>) -> (r: Table<Context>)
    ensures
        set_names(r.names) == set_names(table.names),
        context_models(r.values@) == context_models(table.values@),
        r.values@.len() == table.values@.len(),
    decreases table,
{
    let values: Vec<Context> = copy_contexts(&table.values);
    table.renamed(values)
}

impl TypeView {
    /// Whether this is the type of truth values, constant or not.
    pub open spec fn is_bool(self) -> bool
        decreases self,
    {
        match self {
            TypeView::Bool => true,
            TypeView::Const(taipe) => taipe.is_bool(),
            _ => false,
        }
    }

    /// Whether this is the type of integer literals, constant or not.
    pub open spec fn is_varint(self) -> bool
        decreases self,
    {
        match self {
            TypeView::VarInt => true,
            TypeView::Const(taipe) => taipe.is_varint(),
            _ => false,
        }
    }

    /// Whether this is an integer type, constant or not.
    pub open spec fn is_integer(self) -> bool
        decreases self,
    {
        match self {
            TypeView::VarInt
            | TypeView::Int8
            | TypeView::Int16
            | TypeView::Int32
            | TypeView::Int64
            | TypeView::Int128
            | TypeView::Uint8
            | TypeView::Uint16
            | TypeView::Uint32
            | TypeView::Uint64
            | TypeView::Uint128 => true,
            TypeView::Const(taipe) => taipe.is_integer(),
            _ => false,
        }
    }

    /// Whether this is a signed integer type, constant or not.
    pub open spec fn is_signed_integer(self) -> bool
        decreases self,
    {
        match self {
            TypeView::VarInt
            | TypeView::Int8
            | TypeView::Int16
            | TypeView::Int32
            | TypeView::Int64
            | TypeView::Int128 => true,
            TypeView::Const(taipe) => taipe.is_signed_integer(),
            _ => false,
        }
    }

    /// Whether this is an unsigned integer type, constant or not.
    pub open spec fn is_unsigned_integer(self) -> bool
        decreases self,
    {
        match self {
            TypeView::VarInt
            | TypeView::Uint8
            | TypeView::Uint16
            | TypeView::Uint32
            | TypeView::Uint64
            | TypeView::Uint128 => true,
            TypeView::Const(taipe) => taipe.is_unsigned_integer(),
            _ => false,
        }
    }

    /// Whether this is a floating point type, constant or not.
    pub open spec fn is_float(self) -> bool
        decreases self,
    {
        match self {
            TypeView::Float32
            | TypeView::Float64 => true,
            TypeView::Const(taipe) => taipe.is_float(),
            _ => false,
        }
    }

    /// Whether this is the type of types.
    pub open spec fn is_typedef(self) -> bool
    {
        match self {
            TypeView::Typedef => true,
            _ => false,
        }
    }

    /// Whether this is an array type, constant or not.
    pub open spec fn is_array(self) -> bool
        decreases self,
    {
        match self {
            TypeView::Array { .. } => true,
            TypeView::Const(taipe) => taipe.is_array(),
            _ => false,
        }
    }

    /// Whether this is a fat pointer type, constant or not.
    pub open spec fn is_fat_ptr(self) -> bool
        decreases self,
    {
        match self {
            TypeView::Fat(_) => true,
            TypeView::Const(taipe) => taipe.is_fat_ptr(),
            _ => false,
        }
    }

    /// Whether this is the type of modules.
    pub open spec fn is_module(self) -> bool
    {
        match self {
            TypeView::Module => true,
            _ => false,
        }
    }

    /// Whether this is a function type.
    pub open spec fn is_function(self) -> bool
    {
        match self {
            TypeView::Function { .. } => true,
            _ => false,
        }
    }

    /// Whether this is the type of nothing, constant or not.
    pub open spec fn is_void(self) -> bool
        decreases self,
    {
        match self {
            TypeView::Void => true,
            TypeView::Const(taipe) => taipe.is_void(),
            _ => false,
        }
    }

    /// Whether this is the type of what does not return.
    pub open spec fn is_noreturn(self) -> bool
    {
        match self {
            TypeView::Noreturn => true,
            _ => false,
        }
    }

    /// Whether values of this type cannot be assigned to.
    pub open spec fn is_const(self) -> bool {
        match self {
            TypeView::Const(_)
            | TypeView::Function { .. }
            | TypeView::Module
            | TypeView::Typedef
            | TypeView::Noreturn => true,
            _ => false,
        }
    }

    /// The constant variant of the type.
    pub open spec fn add_const(self) -> TypeView {
        if self.is_const() {
            self
        } else {
            TypeView::Const(Box::new(self))
        }
    }

    /// The type without its constant qualifier.
    pub open spec fn remove_const(self) -> TypeView {
        match self {
            TypeView::Const(taipe) => *taipe,
            taipe => taipe,
        }
    }
}

/// Making a type constant twice is the same as making it constant once, and makes it constant.
pub proof fn law_with_const(t: TypeView)
    ensures
        t.add_const().add_const() == t.add_const(),
        t.add_const().is_const(),
{
}

/// Removing the qualifier undoes adding it to a type that did not have it.
pub proof fn law_without_const(t: TypeView)
    requires
        !(t is Const),
    ensures
        t.add_const().remove_const() == t,
{
}

/// The qualifier does not change what kind of type it is.
pub proof fn law_const_keeps_kind(t: TypeView)
    ensures
        t.add_const().is_bool() == t.is_bool(),
        t.add_const().is_varint() == t.is_varint(),
        t.add_const().is_integer() == t.is_integer(),
        t.add_const().is_signed_integer() == t.is_signed_integer(),
        t.add_const().is_unsigned_integer() == t.is_unsigned_integer(),
        t.add_const().is_float() == t.is_float(),
        t.add_const().is_array() == t.is_array(),
        t.add_const().is_fat_ptr() == t.is_fat_ptr(),
        t.add_const().is_void() == t.is_void(),
{
}

/// An integer type is signed or unsigned, and the type of integer literals is the only one that
/// is both. No integer type is a floating point type.
pub proof fn law_integer_types(t: TypeView)
    ensures
        t.is_integer() == (t.is_signed_integer() || t.is_unsigned_integer()),
        (t.is_signed_integer() && t.is_unsigned_integer()) == t.is_varint(),
        !(t.is_integer() && t.is_float()),
    decreases t,
{
    match t {
        TypeView::Const(inner) => law_integer_types(*inner),
        _ => {},
    }
}

impl Type {
    /// Whether this is the type of truth values, constant or not.
    pub fn is_bool(&self) -> (r: bool)
        ensures
            r == self@.is_bool(),
        decreases self,
    {
        match self {
            Type::Bool => true,
            Type::Const(taipe) => taipe.is_bool(),
            _ => false,
        }
    }

    /// Whether this is the type of integer literals, constant or not.
    pub fn is_varint(&self) -> (r: bool)
        ensures
            r == self@.is_varint(),
        decreases self,
    {
        match self {
            Type::VarInt => true,
            Type::Const(taipe) => taipe.is_varint(),
            _ => false,
        }
    }

    /// Whether this is an integer type, constant or not.
    pub fn is_integer(&self) -> (r: bool)
        ensures
            r == self@.is_integer(),
        decreases self,
    {
        match self {
            Type::VarInt
            | Type::Int8
            | Type::Int16
            | Type::Int32
            | Type::Int64
            | Type::Int128
            | Type::Uint8
            | Type::Uint16
            | Type::Uint32
            | Type::Uint64
            | Type::Uint128 => true,
            Type::Const(taipe) => taipe.is_integer(),
            _ => false,
        }
    }

    /// Whether this is a signed integer type, constant or not.
    pub fn is_signed_integer(&self) -> (r: bool)
        ensures
            r == self@.is_signed_integer(),
        decreases self,
    {
        match self {
            Type::VarInt
            | Type::Int8
            | Type::Int16
            | Type::Int32
            | Type::Int64
            | Type::Int128 => true,
            Type::Const(taipe) => taipe.is_signed_integer(),
            _ => false,
        }
    }

    /// Whether this is an unsigned integer type, constant or not.
    pub fn is_unsigned_integer(&self) -> (r: bool)
        ensures
            r == self@.is_unsigned_integer(),
        decreases self,
    {
        match self {
            Type::VarInt
            | Type::Uint8
            | Type::Uint16
            | Type::Uint32
            | Type::Uint64
            | Type::Uint128 => true,
            Type::Const(taipe) => taipe.is_unsigned_integer(),
            _ => false,
        }
    }

    /// Whether this is a floating point type, constant or not.
    pub fn is_float(&self) -> (r: bool)
        ensures
            r == self@.is_float(),
        decreases self,
    {
        match self {
            Type::Float32
            | Type::Float64 => true,
            Type::Const(taipe) => taipe.is_float(),
            _ => false,
        }
    }

    /// Whether this is the type of types.
    pub fn is_typedef(&self) -> (r: bool)
        ensures
            r == self@.is_typedef(),
    {
        match self {
            Type::Typedef => true,
            _ => false,
        }
    }

    /// Whether this is an array type, constant or not.
    pub fn is_array(&self) -> (r: bool)
        ensures
            r == self@.is_array(),
        decreases self,
    {
        match self {
            Type::Array { .. } => true,
            Type::Const(taipe) => taipe.is_array(),
            _ => false,
        }
    }

    /// Whether this is a fat pointer type, constant or not.
    pub fn is_fat_ptr(&self) -> (r: bool)
        ensures
            r == self@.is_fat_ptr(),
        decreases self,
    {
        match self {
            Type::Fat(_) => true,
            Type::Const(taipe) => taipe.is_fat_ptr(),
            _ => false,
        }
    }

    /// Whether this is the type of modules.
    pub fn is_module(&self) -> (r: bool)
        ensures
            r == self@.is_module(),
    {
        match self {
            Type::Module => true,
            _ => false,
        }
    }

    /// Whether this is a function type.
    pub fn is_function(&self) -> (r: bool)
        ensures
            r == self@.is_function(),
    {
        match self {
            Type::Function { .. } => true,
            _ => false,
        }
    }

    /// Whether this is the type of nothing, constant or not.
    pub fn is_void(&self) -> (r: bool)
        ensures
            r == self@.is_void(),
        decreases self,
    {
        match self {
            Type::Void => true,
            Type::Const(taipe) => taipe.is_void(),
            _ => false,
        }
    }

    /// Whether this is the type of what does not return.
    pub fn is_noreturn(&self) -> (r: bool)
        ensures
            r == self@.is_noreturn(),
    {
        match self {
            Type::Noreturn => true,
            _ => false,
        }
    }

    /// Whether values of this type cannot be assigned to.
    pub fn is_const(&self) -> (r: bool)
        ensures
            r == self@.is_const(),
    {
        match self {
            Type::Const(_)
            | Type::Function { .. }
            | Type::Module
            | Type::Typedef
            | Type::Noreturn => true,
            _ => false,
        }
    }

    /// The constant variant of the type.
    pub fn add_const(self) -> (r: Self)
        ensures
            r@ == self@.add_const(),
    {
        if self.is_const() {
            self
        } else {
            Type::Const(Box::new(self))
        }
    }

    /// The type without its constant qualifier.
    pub fn remove_const(&self) -> (r: Self)
        ensures
            r@ == self@.remove_const(),
    {
        match self {
            Type::Const(taipe) => taipe.copy(),
            taipe => taipe.copy(),
        }
    }

    /// Whether two types are the same.
    pub fn same(&self, other: &Type) -> (r: bool)
        ensures
            r == (self@ == other@),
        decreases self,
    {
        match (self, other) {
            (Type::Const(l), Type::Const(r)) => l.same(r),
            (Type::Basic(l), Type::Basic(r)) => l.same(r),
            (
                Type::Function { ret: l_ret, params: l_params },
                Type::Function { ret: r_ret, params: r_params },
            ) => {
                l_ret.same(r_ret) && same_params(l_params, r_params)
            },
            (Type::Pointer(l), Type::Pointer(r)) => l.same(r),
            (
                Type::Array { count: l_count, taipe: l_taipe },
                Type::Array { count: r_count, taipe: r_taipe },
            ) => {
                *l_count == *r_count && l_taipe.same(r_taipe)
            },
            (Type::Fat(l), Type::Fat(r)) => l.same(r),
            (Type::Tuple(l), Type::Tuple(r)) => same_types(l, r),
            (Type::Bool, Type::Bool) => true,
            (Type::Char, Type::Char) => true,
            (Type::VarInt, Type::VarInt) => true,
            (Type::Int8, Type::Int8) => true,
            (Type::Int16, Type::Int16) => true,
            (Type::Int32, Type::Int32) => true,
            (Type::Int64, Type::Int64) => true,
            (Type::Int128, Type::Int128) => true,
            (Type::Uint8, Type::Uint8) => true,
            (Type::Uint16, Type::Uint16) => true,
            (Type::Uint32, Type::Uint32) => true,
            (Type::Uint64, Type::Uint64) => true,
            (Type::Uint128, Type::Uint128) => true,
            (Type::Float32, Type::Float32) => true,
            (Type::Float64, Type::Float64) => true,
            (Type::Module, Type::Module) => true,
            (Type::Typedef, Type::Typedef) => true,
            (Type::Void, Type::Void) => true,
            (Type::Noreturn, Type::Noreturn) => true,
            _ => false,
        }
    }

    /// How the type is shown to the user.
    pub fn to_text(&self) -> (r: String)
        ensures
            r@ == type_text(self@),
        decreases self,
    {
        match self {
            Type::Bool => "__bool".to_owned(),
            Type::Char => "__char".to_owned(),
            Type::VarInt => "{integer}".to_owned(),
            Type::Int8 => "__i8".to_owned(),
            Type::Int16 => "__i16".to_owned(),
            Type::Int32 => "__i32".to_owned(),
            Type::Int64 => "__i64".to_owned(),
            Type::Int128 => "__i128".to_owned(),
            Type::Uint8 => "__u8".to_owned(),
            Type::Uint16 => "__u16".to_owned(),
            Type::Uint32 => "__u32".to_owned(),
            Type::Uint64 => "__u64".to_owned(),
            Type::Uint128 => "__u128".to_owned(),
            Type::Float32 => "__f32".to_owned(),
            Type::Float64 => "__f64".to_owned(),
            Type::Module => "module".to_owned(),
            Type::Typedef => "typedef".to_owned(),
            Type::Void => "void".to_owned(),
            Type::Noreturn => "noreturn".to_owned(),
            Type::Const(taipe) => join2("const ", &taipe.to_text()),
            Type::Basic(scope_id) => scope_id.sym_path.text.clone(),
            Type::Function { ret, params } => join2(
                &join3("fun (", &params_to_text(params, 0), ") -> "),
                &ret.to_text(),
            ),
            Type::Pointer(taipe) => join2("*", &taipe.to_text()),
            Type::Array { count, taipe } => join2(
                &join3("[", &decimal_text(*count as u128), "]"),
                &taipe.to_text(),
            ),
            Type::Fat(taipe) => join2("[]", &taipe.to_text()),
            Type::Tuple(items) => join3("(", &types_to_text(items, 0), ")"),
        }
    }
}

/// How a type is shown to the user.
pub open spec fn type_text(t: TypeView) -> Seq<char>
    decreases t,
{
    match t {
        TypeView::Bool => "__bool"@,
        TypeView::Char => "__char"@,
        TypeView::VarInt => "{integer}"@,
        TypeView::Int8 => "__i8"@,
        TypeView::Int16 => "__i16"@,
        TypeView::Int32 => "__i32"@,
        TypeView::Int64 => "__i64"@,
        TypeView::Int128 => "__i128"@,
        TypeView::Uint8 => "__u8"@,
        TypeView::Uint16 => "__u16"@,
        TypeView::Uint32 => "__u32"@,
        TypeView::Uint64 => "__u64"@,
        TypeView::Uint128 => "__u128"@,
        TypeView::Float32 => "__f32"@,
        TypeView::Float64 => "__f64"@,
        TypeView::Module => "module"@,
        TypeView::Typedef => "typedef"@,
        TypeView::Void => "void"@,
        TypeView::Noreturn => "noreturn"@,
        TypeView::Const(taipe) => "const "@ + type_text(*taipe),
        TypeView::Basic(scope_id) => scope_id.sym_path,
        TypeView::Function { ret, params } => "fun ("@ + params_text(params, 0) + ") -> "@
            + type_text(*ret),
        TypeView::Pointer(taipe) => "*"@ + type_text(*taipe),
        TypeView::Array { count, taipe } => "["@ + decimal(count as nat) + "]"@ + type_text(*taipe),
        TypeView::Fat(taipe) => "[]"@ + type_text(*taipe),
        TypeView::Tuple(items) => "("@ + types_text(items, 0) + ")"@,
    }
}

/// The texts of the types from the `i`-th on, with commas between them.
pub open spec fn types_text(items: Seq<TypeView>, i: int) -> Seq<char>
    decreases items, items.len() - i,
{
    if i < 0 || i >= items.len() {
        seq![]
    } else if i + 1 == items.len() {
        type_text(items[i])
    } else {
        type_text(items[i]) + ", "@ + types_text(items, i + 1)
    }
}

/// The texts of the parameters from the `i`-th on, with commas between them.
pub open spec fn params_text(items: Seq<ParamView>, i: int) -> Seq<char>
    decreases items, items.len() - i,
{
    if i < 0 || i >= items.len() {
        seq![]
    } else if i + 1 == items.len() {
        type_text(items[i].taipe)
    } else {
        type_text(items[i].taipe) + ", "@ + params_text(items, i + 1)
    }
}

fn types_to_text(items: &Vec<Type>, i: usize) -> (r: String)
    requires
        i <= items@.len(),
    ensures
        r@ == types_text(type_models(items@), i as int),
    decreases items, items@.len() - i,
{
    assert(type_models(items@).len() == items@.len());
    if i >= items.len() {
        let r: String = String::new();
        assert(r@ == Seq::<char>::empty());
        r
    } else {
        assert(type_models(items@)[i as int] == items@[i as int]@);
        let first: String = items[i].to_text();
        if i + 1 == items.len() {
            first
        } else {
            join3(&first, ", ", &types_to_text(items, i + 1))
        }
    }
}

fn params_to_text(items: &Vec<Param>, i: usize) -> (r: String)
    requires
        i <= items@.len(),
    ensures
        r@ == params_text(param_models(items@), i as int),
    decreases items, items@.len() - i,
{
    assert(param_models(items@).len() == items@.len());
    if i >= items.len() {
        let r: String = String::new();
        assert(r@ == Seq::<char>::empty());
        r
    } else {
        assert(param_models(items@)[i as int] == items@[i as int]@);
        let first: String = items[i].taipe.to_text();
        if i + 1 == items.len() {
            first
        } else {
            join3(&first, ", ", &params_to_text(items, i + 1))
        }
    }
}

fn same_types(l: &Vec<Type>, r: &Vec<Type>) -> (b: bool)
    ensures
        b == (type_models(l@) == type_models(r@)),
    decreases l,
{
    assert(type_models(l@).len() == l@.len());
    assert(type_models(r@).len() == r@.len());
    if l.len() != r.len() {
        return false;
    }
    let mut i: usize = 0;
    while i < l.len()
        invariant
            i <= l@.len(),
            l@.len() == r@.len(),
            forall|k: int| 0 <= k < i ==> (#[trigger] l@[k])@ == r@[k]@,
        decreases l@.len() - i,
    {
        assert(decreases_to!(l => l@[i as int]));
        if !l[i].same(&r[i]) {
            assert(type_models(l@)[i as int] != type_models(r@)[i as int]);
            return false;
        }
        i = i + 1;
    }
    assert(type_models(l@) =~= type_models(r@));
    true
}

fn same_params(l: &Vec<Param>, r: &Vec<Param>) -> (b: bool)
    ensures
        b == (param_models(l@) == param_models(r@)),
    decreases l,
{
    assert(param_models(l@).len() == l@.len());
    assert(param_models(r@).len() == r@.len());
    if l.len() != r.len() {
        return false;
    }
    let mut i: usize = 0;
    while i < l.len()
        invariant
            i <= l@.len(),
            l@.len() == r@.len(),
            forall|k: int| 0 <= k < i ==> (#[trigger] l@[k])@ == r@[k]@,
        decreases l@.len() - i,
    {
        assert(decreases_to!(l => l@[i as int]));
        if !l[i].taipe.same(&r[i].taipe) {
            assert(param_models(l@)[i as int] != param_models(r@)[i as int]);
            return false;
        }
        i = i + 1;
    }
    assert(param_models(l@) =~= param_models(r@));
    true
}

impl Param {
    /// How the parameter is shown to the user.
    pub fn to_text(&self) -> (r: String)
        ensures
            r@ == type_text(self@.taipe),
    {
        self.taipe.to_text()
    }
}

/// The integer types of immediate values.
#[derive(Clone, Copy, Debug, PartialEq, Eq, Structural)]
pub enum IntKind {
    Int8,
    Int16,
    Int32,
    Int64,
    Int128,
    Uint8,
    Uint16,
    Uint32,
    Uint64,
    Uint128,
}

/// The least integer of a kind.
pub open spec fn kind_min(kind: IntKind) -> int {
    match kind {
        IntKind::Int8 => i8::MIN as int,
        IntKind::Int16 => i16::MIN as int,
        IntKind::Int32 => i32::MIN as int,
        IntKind::Int64 => i64::MIN as int,
        IntKind::Int128 => i128::MIN as int,
        IntKind::Uint8 => u8::MIN as int,
        IntKind::Uint16 => u16::MIN as int,
        IntKind::Uint32 => u32::MIN as int,
        IntKind::Uint64 => u64::MIN as int,
        IntKind::Uint128 => u128::MIN as int,
    }
}

/// The greatest integer of a kind.
pub open spec fn kind_max(kind: IntKind) -> int {
    match kind {
        IntKind::Int8 => i8::MAX as int,
        IntKind::Int16 => i16::MAX as int,
        IntKind::Int32 => i32::MAX as int,
        IntKind::Int64 => i64::MAX as int,
        IntKind::Int128 => i128::MAX as int,
        IntKind::Uint8 => u8::MAX as int,
        IntKind::Uint16 => u16::MAX as int,
        IntKind::Uint32 => u32::MAX as int,
        IntKind::Uint64 => u64::MAX as int,
        IntKind::Uint128 => u128::MAX as int,
    }
}

/// Whether an integer can be held by a kind.
pub open spec fn fits(kind: IntKind, value: int) -> bool {
    kind_min(kind) <= value <= kind_max(kind)
}

/// The immediate value of a kind for an integer that it can hold.
pub open spec fn int_imm(kind: IntKind, value: int) -> ImmView {
    match kind {
        IntKind::Int8 => ImmView::Int8(value as i8),
        IntKind::Int16 => ImmView::Int16(value as i16),
        IntKind::Int32 => ImmView::Int32(value as i32),
        IntKind::Int64 => ImmView::Int64(value as i64),
        IntKind::Int128 => ImmView::Int128(value as i128),
        IntKind::Uint8 => ImmView::Uint8(value as u8),
        IntKind::Uint16 => ImmView::Uint16(value as u16),
        IntKind::Uint32 => ImmView::Uint32(value as u32),
        IntKind::Uint64 => ImmView::Uint64(value as u64),
        IntKind::Uint128 => ImmView::Uint128(value as u128),
    }
}

/// The immediate value of a kind for an integer, if the kind can hold it.
pub open spec fn checked_int_imm(kind: IntKind, value: int) -> Option<ImmView> {
    if fits(kind, value) {
        Some(int_imm(kind, value))
    } else {
        None
    }
}

/// The quotient of two integers, rounded towards zero.
pub open spec fn quotient(a: int, b: int) -> int {
    if a >= 0 && b >= 0 {
        a / b
    } else if a < 0 && b < 0 {
        (-a) / (-b)
    } else if a < 0 {
        -((-a) / b)
    } else {
        -(a / (-b))
    }
}

/// The remainder of the division of two integers, with the sign of the first one.
pub open spec fn remainder(a: int, b: int) -> int {
    if a >= 0 && b >= 0 {
        a % b
    } else if a < 0 && b < 0 {
        -((-a) % (-b))
    } else if a < 0 {
        -((-a) % b)
    } else {
        a % (-b)
    }
}

/// The quotient and the remainder give back the dividend, and the remainder is smaller than the
/// divisor.
pub proof fn law_quotient_remainder(a: int, b: int)
    requires
        b != 0,
    ensures
        quotient(a, b) * b + remainder(a, b) == a,
        -(if b < 0 { -b } else { b }) < remainder(a, b) < (if b < 0 { -b } else { b }),
{
    let x = if a < 0 { -a } else { a };
    let y = if b < 0 { -b } else { b };
    vstd::arithmetic::div_mod::lemma_fundamental_div_mod(x, y);
    assert(0 <= x % y < y) by (nonlinear_arith)
        requires
            y > 0,
    ;
    let q = x / y;
    let r = x % y;
    assert(y * q + r == x);
    assert(quotient(a, b) * b == (if a < 0 { -(y * q) } else { y * q })) by (nonlinear_arith)
        requires
            y == (if b < 0 { -b } else { b }),
            quotient(a, b) == (if (a < 0) == (b < 0) { q } else { -q }),
    ;
}

proof fn lemma_division_fits(kind: IntKind, a: int, b: int)
    requires
        fits(kind, a),
        fits(kind, b),
        b != 0,
    ensures
        fits(kind, remainder(a, b)),
        a == 0 ==> quotient(a, b) == 0 && remainder(a, b) == 0,
        fits(kind, quotient(a, b)) == !(kind_min(kind) < 0 && a == kind_min(kind) && b == -1),
{
    let x = if a < 0 { -a } else { a };
    let y = if b < 0 { -b } else { b };
    assert(0 <= x / y <= x && 0 <= x % y <= x && (y == 1 ==> x / y == x) && (x == 0 ==> x / y == 0
        && x % y == 0) && (y > 1 ==> 2 * (x / y) <= x)) by (nonlinear_arith)
        requires
            x >= 0,
            y > 0,
    ;
}

impl ImmView {
    /// The integer kind of the value, if it has one.
    pub open spec fn int_kind(self) -> Option<IntKind> {
        match self {
            ImmView::Int8(_) => Some(IntKind::Int8),
            ImmView::Int16(_) => Some(IntKind::Int16),
            ImmView::Int32(_) => Some(IntKind::Int32),
            ImmView::Int64(_) => Some(IntKind::Int64),
            ImmView::Int128(_) => Some(IntKind::Int128),
            ImmView::Uint8(_) => Some(IntKind::Uint8),
            ImmView::Uint16(_) => Some(IntKind::Uint16),
            ImmView::Uint32(_) => Some(IntKind::Uint32),
            ImmView::Uint64(_) => Some(IntKind::Uint64),
            ImmView::Uint128(_) => Some(IntKind::Uint128),
            _ => None,
        }
    }

    /// The integer of a value that has an integer kind.
    pub open spec fn int_value(self) -> int {
        match self {
            ImmView::Int8(v) => v as int,
            ImmView::Int16(v) => v as int,
            ImmView::Int32(v) => v as int,
            ImmView::Int64(v) => v as int,
            ImmView::Int128(v) => v as int,
            ImmView::Uint8(v) => v as int,
            ImmView::Uint16(v) => v as int,
            ImmView::Uint32(v) => v as int,
            ImmView::Uint64(v) => v as int,
            ImmView::Uint128(v) => v as int,
            _ => 0,
        }
    }

    /// Whether two values are integers of the same kind.
    pub open spec fn same_int_kind(self, other: ImmView) -> bool {
        self.int_kind() is Some && self.int_kind() == other.int_kind()
    }

    /// Whether two values are floating point numbers of the same type.
    pub open spec fn same_float_kind(self, other: ImmView) -> bool {
        (self is Float32 && other is Float32) || (self is Float64 && other is Float64)
    }

    /// The integer as a `usize`, where the value is an integer that fits.
    pub open spec fn to_usize(self) -> Option<usize> {
        if self.int_kind() is Some && 0 <= self.int_value() <= usize::MAX {
            Some(self.int_value() as usize)
        } else {
            None
        }
    }

    /// The negated value.
    pub open spec fn negate(self) -> ImmView {
        match self {
            ImmView::Float32(v) => ImmView::Float32(FloatView::Neg(Box::new(v))),
            ImmView::Float64(v) => ImmView::Float64(FloatView::Neg(Box::new(v))),
            _ => int_imm(self.int_kind()->0, -self.int_value()),
        }
    }

    /// Whether the value can be negated: a float, or a signed integer whose negation fits.
    pub open spec fn can_negate(self) -> bool {
        match self {
            ImmView::Float32(_) | ImmView::Float64(_) => true,
            ImmView::Int8(v) => v != i8::MIN,
            ImmView::Int16(v) => v != i16::MIN,
            ImmView::Int32(v) => v != i32::MIN,
            ImmView::Int64(v) => v != i64::MIN,
            ImmView::Int128(v) => v != i128::MIN,
            _ => false,
        }
    }

    /// The value with all bits flipped: in two's complement, what is left to -1.
    pub open spec fn flip_bits(self) -> ImmView {
        match self {
            ImmView::Int8(v) => ImmView::Int8((-1 - v) as i8),
            ImmView::Int16(v) => ImmView::Int16((-1 - v) as i16),
            ImmView::Int32(v) => ImmView::Int32((-1 - v) as i32),
            ImmView::Int64(v) => ImmView::Int64((-1 - v) as i64),
            ImmView::Int128(v) => ImmView::Int128((-1 - v) as i128),
            ImmView::Uint8(v) => ImmView::Uint8((u8::MAX - v) as u8),
            ImmView::Uint16(v) => ImmView::Uint16((u16::MAX - v) as u16),
            ImmView::Uint32(v) => ImmView::Uint32((u32::MAX - v) as u32),
            ImmView::Uint64(v) => ImmView::Uint64((u64::MAX - v) as u64),
            ImmView::Uint128(v) => ImmView::Uint128((u128::MAX - v) as u128),
            other => other,
        }
    }

    /// The sum of two values, if it can be held.
    pub open spec fn add(self, other: ImmView) -> Option<ImmView> {
        match (self, other) {
            (ImmView::Float32(a), ImmView::Float32(b)) => Some(
                ImmView::Float32(FloatView::Add(Box::new(a), Box::new(b))),
            ),
            (ImmView::Float64(a), ImmView::Float64(b)) => Some(
                ImmView::Float64(FloatView::Add(Box::new(a), Box::new(b))),
            ),
            _ => checked_int_imm(self.int_kind()->0, self.int_value() + other.int_value()),
        }
    }

    /// The difference of two values, if it can be held.
    pub open spec fn sub(self, other: ImmView) -> Option<ImmView> {
        match (self, other) {
            (ImmView::Float32(a), ImmView::Float32(b)) => Some(
                ImmView::Float32(FloatView::Sub(Box::new(a), Box::new(b))),
            ),
            (ImmView::Float64(a), ImmView::Float64(b)) => Some(
                ImmView::Float64(FloatView::Sub(Box::new(a), Box::new(b))),
            ),
            _ => checked_int_imm(self.int_kind()->0, self.int_value() - other.int_value()),
        }
    }

    /// The product of two values, if it can be held.
    pub open spec fn mul(self, other: ImmView) -> Option<ImmView> {
        match (self, other) {
            (ImmView::Float32(a), ImmView::Float32(b)) => Some(
                ImmView::Float32(FloatView::Mul(Box::new(a), Box::new(b))),
            ),
            (ImmView::Float64(a), ImmView::Float64(b)) => Some(
                ImmView::Float64(FloatView::Mul(Box::new(a), Box::new(b))),
            ),
            _ => checked_int_imm(self.int_kind()->0, self.int_value() * other.int_value()),
        }
    }

    /// The quotient of two values, if it can be held; there is none by the integer zero.
    pub open spec fn div(self, other: ImmView) -> Option<ImmView> {
        match (self, other) {
            (ImmView::Float32(a), ImmView::Float32(b)) => Some(
                ImmView::Float32(FloatView::Div(Box::new(a), Box::new(b))),
            ),
            (ImmView::Float64(a), ImmView::Float64(b)) => Some(
                ImmView::Float64(FloatView::Div(Box::new(a), Box::new(b))),
            ),
            _ => if other.int_value() == 0 {
                None
            } else {
                checked_int_imm(
                    self.int_kind()->0,
                    quotient(self.int_value(), other.int_value()),
                )
            },
        }
    }

    /// The remainder of the division of two integers; there is none by zero, nor where the
    /// quotient cannot be held.
    pub open spec fn modulo(self, other: ImmView) -> Option<ImmView> {
        if other.int_value() == 0 || !fits(
            self.int_kind()->0,
            quotient(self.int_value(), other.int_value()),
        ) {
            None
        } else {
            Some(int_imm(self.int_kind()->0, remainder(self.int_value(), other.int_value())))
        }
    }

    /// The integer shifted to the left by the given number of bits modulo its width.
    pub open spec fn shl(self, other: ImmView) -> ImmView {
        let by = other->Uint32_0;
        match self {
            ImmView::Int8(v) => ImmView::Int8(v << (by % 8u32)),
            ImmView::Int16(v) => ImmView::Int16(v << (by % 16u32)),
            ImmView::Int32(v) => ImmView::Int32(v << (by % 32u32)),
            ImmView::Int64(v) => ImmView::Int64(v << (by % 64u32)),
            ImmView::Int128(v) => ImmView::Int128(v << (by % 128u32)),
            ImmView::Uint8(v) => ImmView::Uint8(v << (by % 8u32)),
            ImmView::Uint16(v) => ImmView::Uint16(v << (by % 16u32)),
            ImmView::Uint32(v) => ImmView::Uint32(v << (by % 32u32)),
            ImmView::Uint64(v) => ImmView::Uint64(v << (by % 64u32)),
            ImmView::Uint128(v) => ImmView::Uint128(v << (by % 128u32)),
            other => other,
        }
    }

    /// The integer shifted to the right by the given number of bits modulo its width.
    pub open spec fn shr(self, other: ImmView) -> ImmView {
        let by = other->Uint32_0;
        match self {
            ImmView::Int8(v) => ImmView::Int8(v >> (by % 8u32)),
            ImmView::Int16(v) => ImmView::Int16(v >> (by % 16u32)),
            ImmView::Int32(v) => ImmView::Int32(v >> (by % 32u32)),
            ImmView::Int64(v) => ImmView::Int64(v >> (by % 64u32)),
            ImmView::Int128(v) => ImmView::Int128(v >> (by % 128u32)),
            ImmView::Uint8(v) => ImmView::Uint8(v >> (by % 8u32)),
            ImmView::Uint16(v) => ImmView::Uint16(v >> (by % 16u32)),
            ImmView::Uint32(v) => ImmView::Uint32(v >> (by % 32u32)),
            ImmView::Uint64(v) => ImmView::Uint64(v >> (by % 64u32)),
            ImmView::Uint128(v) => ImmView::Uint128(v >> (by % 128u32)),
            other => other,
        }
    }

    /// The bitwise or of two integers of the same kind.
    pub open spec fn bit_or(self, other: ImmView) -> ImmView {
        match (self, other) {
            (ImmView::Int8(a), ImmView::Int8(b)) => ImmView::Int8(a | b),
            (ImmView::Int16(a), ImmView::Int16(b)) => ImmView::Int16(a | b),
            (ImmView::Int32(a), ImmView::Int32(b)) => ImmView::Int32(a | b),
            (ImmView::Int64(a), ImmView::Int64(b)) => ImmView::Int64(a | b),
            (ImmView::Int128(a), ImmView::Int128(b)) => ImmView::Int128(a | b),
            (ImmView::Uint8(a), ImmView::Uint8(b)) => ImmView::Uint8(a | b),
            (ImmView::Uint16(a), ImmView::Uint16(b)) => ImmView::Uint16(a | b),
            (ImmView::Uint32(a), ImmView::Uint32(b)) => ImmView::Uint32(a | b),
            (ImmView::Uint64(a), ImmView::Uint64(b)) => ImmView::Uint64(a | b),
            (ImmView::Uint128(a), ImmView::Uint128(b)) => ImmView::Uint128(a | b),
            (first, _) => first,
        }
    }

    /// The bitwise exclusive or of two integers of the same kind.
    pub open spec fn bit_xor(self, other: ImmView) -> ImmView {
        match (self, other) {
            (ImmView::Int8(a), ImmView::Int8(b)) => ImmView::Int8(a ^ b),
            (ImmView::Int16(a), ImmView::Int16(b)) => ImmView::Int16(a ^ b),
            (ImmView::Int32(a), ImmView::Int32(b)) => ImmView::Int32(a ^ b),
            (ImmView::Int64(a), ImmView::Int64(b)) => ImmView::Int64(a ^ b),
            (ImmView::Int128(a), ImmView::Int128(b)) => ImmView::Int128(a ^ b),
            (ImmView::Uint8(a), ImmView::Uint8(b)) => ImmView::Uint8(a ^ b),
            (ImmView::Uint16(a), ImmView::Uint16(b)) => ImmView::Uint16(a ^ b),
            (ImmView::Uint32(a), ImmView::Uint32(b)) => ImmView::Uint32(a ^ b),
            (ImmView::Uint64(a), ImmView::Uint64(b)) => ImmView::Uint64(a ^ b),
            (ImmView::Uint128(a), ImmView::Uint128(b)) => ImmView::Uint128(a ^ b),
            (first, _) => first,
        }
    }

    /// The bitwise and of two integers of the same kind.
    pub open spec fn bit_and(self, other: ImmView) -> ImmView {
        match (self, other) {
            (ImmView::Int8(a), ImmView::Int8(b)) => ImmView::Int8(a & b),
            (ImmView::Int16(a), ImmView::Int16(b)) => ImmView::Int16(a & b),
            (ImmView::Int32(a), ImmView::Int32(b)) => ImmView::Int32(a & b),
            (ImmView::Int64(a), ImmView::Int64(b)) => ImmView::Int64(a & b),
            (ImmView::Int128(a), ImmView::Int128(b)) => ImmView::Int128(a & b),
            (ImmView::Uint8(a), ImmView::Uint8(b)) => ImmView::Uint8(a & b),
            (ImmView::Uint16(a), ImmView::Uint16(b)) => ImmView::Uint16(a & b),
            (ImmView::Uint32(a), ImmView::Uint32(b)) => ImmView::Uint32(a & b),
            (ImmView::Uint64(a), ImmView::Uint64(b)) => ImmView::Uint64(a & b),
            (ImmView::Uint128(a), ImmView::Uint128(b)) => ImmView::Uint128(a & b),
            (first, _) => first,
        }
    }
}

/// Adding and multiplying do not depend on the order of integers of the same kind.
pub proof fn law_imm_commutative(a: ImmView, b: ImmView)
    requires
        a.same_int_kind(b),
    ensures
        a.add(b) == b.add(a),
        a.mul(b) == b.mul(a),
{
    assert(a.int_value() * b.int_value() == b.int_value() * a.int_value()) by (nonlinear_arith);
}

/// Subtracting undoes adding, where the sum can be held.
pub proof fn law_imm_difference_undoes_sum(a: ImmView, b: ImmView)
    requires
        a.same_int_kind(b),
        a.add(b) is Some,
    ensures
        a.add(b)->0.sub(b) == Some(a),
{
}

/// Negating twice gives back an integer that can be negated.
pub proof fn law_imm_negate_twice(a: ImmView)
    requires
        a.int_kind() is Some,
        a.can_negate(),
    ensures
        a.negate().can_negate(),
        a.negate().negate() == a,
{
}

/// Where a quotient and a remainder exist, they give back the dividend.
pub proof fn law_imm_division(a: ImmView, b: ImmView)
    requires
        a.same_int_kind(b),
        a.div(b) is Some,
    ensures
        a.modulo(b) is Some,
        a.div(b)->0.int_value() * b.int_value() + a.modulo(b)->0.int_value() == a.int_value(),
{
    law_quotient_remainder(a.int_value(), b.int_value());
    lemma_division_fits(a.int_kind()->0, a.int_value(), b.int_value());
}

/// A cast to a kind of integers that can hold the value keeps the value.
pub proof fn law_imm_cast_keeps_value(a: ImmView, kind: IntKind)
    requires
        a.int_kind() is Some,
        kind_min(kind) <= a.int_value() <= kind_max(kind),
    ensures
        a.cast_to(kind).int_kind() == Some(kind),
        a.cast_to(kind).int_value() == a.int_value(),
{
}

/// Flipping all bits twice gives back the integer.
pub proof fn law_imm_flip_twice(a: ImmView)
    requires
        a.int_kind() is Some,
    ensures
        a.flip_bits().flip_bits() == a,
{
}

impl Imm {
    /// The integer as a `usize`, where the value is an integer that fits.
    pub fn to_usize(&self) -> (r: Option<usize>)
        ensures
            r == self@.to_usize(),
    {
        match self {
            Imm::Int8(val) => if *val >= 0 {
                Some(*val as usize)
            } else {
                None
            },
            Imm::Int16(val) => if *val >= 0 {
                Some(*val as usize)
            } else {
                None
            },
            Imm::Int32(val) => if *val >= 0 {
                Some(*val as usize)
            } else {
                None
            },
            Imm::Int64(val) => if *val >= 0 && *val as u128 <= usize::MAX as u128 {
                Some(*val as usize)
            } else {
                None
            },
            Imm::Int128(val) => if *val >= 0 && *val as u128 <= usize::MAX as u128 {
                Some(*val as usize)
            } else {
                None
            },
            Imm::Uint8(val) => Some(*val as usize),
            Imm::Uint16(val) => Some(*val as usize),
            Imm::Uint32(val) => Some(*val as usize),
            Imm::Uint64(val) => if *val as u128 <= usize::MAX as u128 {
                Some(*val as usize)
            } else {
                None
            },
            Imm::Uint128(val) => if *val as u128 <= usize::MAX as u128 {
                Some(*val as usize)
            } else {
                None
            },
            _ => None,
        }
    }

    /// The negated value.
    pub fn negate(self) -> (r: Self)
        requires
            self@.can_negate(),
        ensures
            r@ == self@.negate(),
    {
        match self {
            Imm::Float32(val) => Imm::Float32(Float::Neg(Box::new(val))),
            Imm::Float64(val) => Imm::Float64(Float::Neg(Box::new(val))),
            Imm::Int8(val) => Imm::Int8(-val),
            Imm::Int16(val) => Imm::Int16(-val),
            Imm::Int32(val) => Imm::Int32(-val),
            Imm::Int64(val) => Imm::Int64(-val),
            Imm::Int128(val) => Imm::Int128(-val),
            other => other,
        }
    }

    /// The value with all bits flipped.
    pub fn flip_bits(self) -> (r: Self)
        requires
            self@.int_kind() is Some,
        ensures
            r@ == self@.flip_bits(),
    {
        match self {
            Imm::Int8(val) => Imm::Int8(-1 - val),
            Imm::Int16(val) => Imm::Int16(-1 - val),
            Imm::Int32(val) => Imm::Int32(-1 - val),
            Imm::Int64(val) => Imm::Int64(-1 - val),
            Imm::Int128(val) => Imm::Int128(-1 - val),
            Imm::Uint8(val) => Imm::Uint8(u8::MAX - val),
            Imm::Uint16(val) => Imm::Uint16(u16::MAX - val),
            Imm::Uint32(val) => Imm::Uint32(u32::MAX - val),
            Imm::Uint64(val) => Imm::Uint64(u64::MAX - val),
            Imm::Uint128(val) => Imm::Uint128(u128::MAX - val),
            other => other,
        }
    }

    /// The sum of two values of the same type, if it can be held.
    pub fn add(self, other: Imm) -> (r: Option<Self>)
        requires
            self@.same_int_kind(other@) || self@.same_float_kind(other@),
        ensures
            option_view(r) == self@.add(other@),
    {
        match (self, other) {
            (Imm::Int8(a), Imm::Int8(b)) => match a.checked_add(b) {
                Some(value) => Some(Imm::Int8(value)),
                None => None,
            },
            (Imm::Int16(a), Imm::Int16(b)) => match a.checked_add(b) {
                Some(value) => Some(Imm::Int16(value)),
                None => None,
            },
            (Imm::Int32(a), Imm::Int32(b)) => match a.checked_add(b) {
                Some(value) => Some(Imm::Int32(value)),
                None => None,
            },
            (Imm::Int64(a), Imm::Int64(b)) => match a.checked_add(b) {
                Some(value) => Some(Imm::Int64(value)),
                None => None,
            },
            (Imm::Int128(a), Imm::Int128(b)) => match a.checked_add(b) {
                Some(value) => Some(Imm::Int128(value)),
                None => None,
            },
            (Imm::Uint8(a), Imm::Uint8(b)) => match a.checked_add(b) {
                Some(value) => Some(Imm::Uint8(value)),
                None => None,
            },
            (Imm::Uint16(a), Imm::Uint16(b)) => match a.checked_add(b) {
                Some(value) => Some(Imm::Uint16(value)),
                None => None,
            },
            (Imm::Uint32(a), Imm::Uint32(b)) => match a.checked_add(b) {
                Some(value) => Some(Imm::Uint32(value)),
                None => None,
            },
            (Imm::Uint64(a), Imm::Uint64(b)) => match a.checked_add(b) {
                Some(value) => Some(Imm::Uint64(value)),
                None => None,
            },
            (Imm::Uint128(a), Imm::Uint128(b)) => match a.checked_add(b) {
                Some(value) => Some(Imm::Uint128(value)),
                None => None,
            },
            (Imm::Float32(a), Imm::Float32(b)) => Some(
                Imm::Float32(Float::Add(Box::new(a), Box::new(b))),
            ),
            (Imm::Float64(a), Imm::Float64(b)) => Some(
                Imm::Float64(Float::Add(Box::new(a), Box::new(b))),
            ),
            _ => None,
        }
    }

    /// The difference of two values of the same type, if it can be held.
    pub fn sub(self, other: Imm) -> (r: Option<Self>)
        requires
            self@.same_int_kind(other@) || self@.same_float_kind(other@),
        ensures
            option_view(r) == self@.sub(other@),
    {
        match (self, other) {
            (Imm::Int8(a), Imm::Int8(b)) => match a.checked_sub(b) {
                Some(value) => Some(Imm::Int8(value)),
                None => None,
            },
            (Imm::Int16(a), Imm::Int16(b)) => match a.checked_sub(b) {
                Some(value) => Some(Imm::Int16(value)),
                None => None,
            },
            (Imm::Int32(a), Imm::Int32(b)) => match a.checked_sub(b) {
                Some(value) => Some(Imm::Int32(value)),
                None => None,
            },
            (Imm::Int64(a), Imm::Int64(b)) => match a.checked_sub(b) {
                Some(value) => Some(Imm::Int64(value)),
                None => None,
            },
            (Imm::Int128(a), Imm::Int128(b)) => match a.checked_sub(b) {
                Some(value) => Some(Imm::Int128(value)),
                None => None,
            },
            (Imm::Uint8(a), Imm::Uint8(b)) => match a.checked_sub(b) {
                Some(value) => Some(Imm::Uint8(value)),
                None => None,
            },
            (Imm::Uint16(a), Imm::Uint16(b)) => match a.checked_sub(b) {
                Some(value) => Some(Imm::Uint16(value)),
                None => None,
            },
            (Imm::Uint32(a), Imm::Uint32(b)) => match a.checked_sub(b) {
                Some(value) => Some(Imm::Uint32(value)),
                None => None,
            },
            (Imm::Uint64(a), Imm::Uint64(b)) => match a.checked_sub(b) {
                Some(value) => Some(Imm::Uint64(value)),
                None => None,
            },
            (Imm::Uint128(a), Imm::Uint128(b)) => match a.checked_sub(b) {
                Some(value) => Some(Imm::Uint128(value)),
                None => None,
            },
            (Imm::Float32(a), Imm::Float32(b)) => Some(
                Imm::Float32(Float::Sub(Box::new(a), Box::new(b))),
            ),
            (Imm::Float64(a), Imm::Float64(b)) => Some(
                Imm::Float64(Float::Sub(Box::new(a), Box::new(b))),
            ),
            _ => None,
        }
    }

    /// The product of two values of the same type, if it can be held.
    pub fn mul(self, other: Imm) -> (r: Option<Self>)
        requires
            self@.same_int_kind(other@) || self@.same_float_kind(other@),
        ensures
            option_view(r) == self@.mul(other@),
    {
        match (self, other) {
            (Imm::Int8(a), Imm::Int8(b)) => match a.checked_mul(b) {
                Some(value) => Some(Imm::Int8(value)),
                None => None,
            },
            (Imm::Int16(a), Imm::Int16(b)) => match a.checked_mul(b) {
                Some(value) => Some(Imm::Int16(value)),
                None => None,
            },
            (Imm::Int32(a), Imm::Int32(b)) => match a.checked_mul(b) {
                Some(value) => Some(Imm::Int32(value)),
                None => None,
            },
            (Imm::Int64(a), Imm::Int64(b)) => match a.checked_mul(b) {
                Some(value) => Some(Imm::Int64(value)),
                None => None,
            },
            (Imm::Int128(a), Imm::Int128(b)) => match a.checked_mul(b) {
                Some(value) => Some(Imm::Int128(value)),
                None => None,
            },
            (Imm::Uint8(a), Imm::Uint8(b)) => match a.checked_mul(b) {
                Some(value) => Some(Imm::Uint8(value)),
                None => None,
            },
            (Imm::Uint16(a), Imm::Uint16(b)) => match a.checked_mul(b) {
                Some(value) => Some(Imm::Uint16(value)),
                None => None,
            },
            (Imm::Uint32(a), Imm::Uint32(b)) => match a.checked_mul(b) {
                Some(value) => Some(Imm::Uint32(value)),
                None => None,
            },
            (Imm::Uint64(a), Imm::Uint64(b)) => match a.checked_mul(b) {
                Some(value) => Some(Imm::Uint64(value)),
                None => None,
            },
            (Imm::Uint128(a), Imm::Uint128(b)) => match a.checked_mul(b) {
                Some(value) => Some(Imm::Uint128(value)),
                None => None,
            },
            (Imm::Float32(a), Imm::Float32(b)) => Some(
                Imm::Float32(Float::Mul(Box::new(a), Box::new(b))),
            ),
            (Imm::Float64(a), Imm::Float64(b)) => Some(
                Imm::Float64(Float::Mul(Box::new(a), Box::new(b))),
            ),
            _ => None,
        }
    }

    /// The quotient of two values of the same type, if it can be held.
    pub fn div(self, other: Imm) -> (r: Option<Self>)
        requires
            self@.same_int_kind(other@) || self@.same_float_kind(other@),
        ensures
            option_view(r) == self@.div(other@),
    {
        proof {
            if self@.int_kind() is Some && other@.int_value() != 0 {
                lemma_division_fits(self@.int_kind()->0, self@.int_value(), other@.int_value());
            }
        }
        match (self, other) {
            (Imm::Int8(a), Imm::Int8(b)) => match a.checked_div(b) {
                Some(value) => Some(Imm::Int8(value)),
                None => None,
            },
            (Imm::Int16(a), Imm::Int16(b)) => match a.checked_div(b) {
                Some(value) => Some(Imm::Int16(value)),
                None => None,
            },
            (Imm::Int32(a), Imm::Int32(b)) => match a.checked_div(b) {
                Some(value) => Some(Imm::Int32(value)),
                None => None,
            },
            (Imm::Int64(a), Imm::Int64(b)) => match a.checked_div(b) {
                Some(value) => Some(Imm::Int64(value)),
                None => None,
            },
            (Imm::Int128(a), Imm::Int128(b)) => match a.checked_div(b) {
                Some(value) => Some(Imm::Int128(value)),
                None => None,
            },
            (Imm::Uint8(a), Imm::Uint8(b)) => match a.checked_div(b) {
                Some(value) => Some(Imm::Uint8(value)),
                None => None,
            },
            (Imm::Uint16(a), Imm::Uint16(b)) => match a.checked_div(b) {
                Some(value) => Some(Imm::Uint16(value)),
                None => None,
            },
            (Imm::Uint32(a), Imm::Uint32(b)) => match a.checked_div(b) {
                Some(value) => Some(Imm::Uint32(value)),
                None => None,
            },
            (Imm::Uint64(a), Imm::Uint64(b)) => match a.checked_div(b) {
                Some(value) => Some(Imm::Uint64(value)),
                None => None,
            },
            (Imm::Uint128(a), Imm::Uint128(b)) => match a.checked_div(b) {
                Some(value) => Some(Imm::Uint128(value)),
                None => None,
            },
            (Imm::Float32(a), Imm::Float32(b)) => Some(
                Imm::Float32(Float::Div(Box::new(a), Box::new(b))),
            ),
            (Imm::Float64(a), Imm::Float64(b)) => Some(
                Imm::Float64(Float::Div(Box::new(a), Box::new(b))),
            ),
            _ => None,
        }
    }

    /// The remainder of the division of two integers of the same type, if there is one.
    pub fn modulo(self, other: Imm) -> (r: Option<Self>)
        requires
            self@.same_int_kind(other@),
        ensures
            option_view(r) == self@.modulo(other@),
    {
        proof {
            if self@.int_kind() is Some && other@.int_value() != 0 {
                lemma_division_fits(self@.int_kind()->0, self@.int_value(), other@.int_value());
            }
        }
        match (self, other) {
            (Imm::Int8(a), Imm::Int8(b)) => match a.checked_rem(b) {
                Some(value) => Some(Imm::Int8(value)),
                None => None,
            },
            (Imm::Int16(a), Imm::Int16(b)) => match a.checked_rem(b) {
                Some(value) => Some(Imm::Int16(value)),
                None => None,
            },
            (Imm::Int32(a), Imm::Int32(b)) => match a.checked_rem(b) {
                Some(value) => Some(Imm::Int32(value)),
                None => None,
            },
            (Imm::Int64(a), Imm::Int64(b)) => match a.checked_rem(b) {
                Some(value) => Some(Imm::Int64(value)),
                None => None,
            },
            (Imm::Int128(a), Imm::Int128(b)) => match a.checked_rem(b) {
                Some(value) => Some(Imm::Int128(value)),
                None => None,
            },
            (Imm::Uint8(a), Imm::Uint8(b)) => match a.checked_rem(b) {
                Some(value) => Some(Imm::Uint8(value)),
                None => None,
            },
            (Imm::Uint16(a), Imm::Uint16(b)) => match a.checked_rem(b) {
                Some(value) => Some(Imm::Uint16(value)),
                None => None,
            },
            (Imm::Uint32(a), Imm::Uint32(b)) => match a.checked_rem(b) {
                Some(value) => Some(Imm::Uint32(value)),
                None => None,
            },
            (Imm::Uint64(a), Imm::Uint64(b)) => match a.checked_rem(b) {
                Some(value) => Some(Imm::Uint64(value)),
                None => None,
            },
            (Imm::Uint128(a), Imm::Uint128(b)) => match a.checked_rem(b) {
                Some(value) => Some(Imm::Uint128(value)),
                None => None,
            },
            _ => None,
        }
    }

    /// The integer shifted to the left.
    pub fn shl(self, other: Imm) -> (r: Self)
        requires
            self@.int_kind() is Some,
            other@ is Uint32,
        ensures
            r@ == self@.shl(other@),
    {
        match (self, other) {
            (Imm::Int8(a), Imm::Uint32(b)) => Imm::Int8(a.wrapping_shl(b)),
            (Imm::Int16(a), Imm::Uint32(b)) => Imm::Int16(a.wrapping_shl(b)),
            (Imm::Int32(a), Imm::Uint32(b)) => Imm::Int32(a.wrapping_shl(b)),
            (Imm::Int64(a), Imm::Uint32(b)) => Imm::Int64(a.wrapping_shl(b)),
            (Imm::Int128(a), Imm::Uint32(b)) => Imm::Int128(a.wrapping_shl(b)),
            (Imm::Uint8(a), Imm::Uint32(b)) => Imm::Uint8(a.wrapping_shl(b)),
            (Imm::Uint16(a), Imm::Uint32(b)) => Imm::Uint16(a.wrapping_shl(b)),
            (Imm::Uint32(a), Imm::Uint32(b)) => Imm::Uint32(a.wrapping_shl(b)),
            (Imm::Uint64(a), Imm::Uint32(b)) => Imm::Uint64(a.wrapping_shl(b)),
            (Imm::Uint128(a), Imm::Uint32(b)) => Imm::Uint128(a.wrapping_shl(b)),
            (other, _) => other,
        }
    }

    /// The integer shifted to the right.
    pub fn shr(self, other: Imm) -> (r: Self)
        requires
            self@.int_kind() is Some,
            other@ is Uint32,
        ensures
            r@ == self@.shr(other@),
    {
        match (self, other) {
            (Imm::Int8(a), Imm::Uint32(b)) => Imm::Int8(a.wrapping_shr(b)),
            (Imm::Int16(a), Imm::Uint32(b)) => Imm::Int16(a.wrapping_shr(b)),
            (Imm::Int32(a), Imm::Uint32(b)) => Imm::Int32(a.wrapping_shr(b)),
            (Imm::Int64(a), Imm::Uint32(b)) => Imm::Int64(a.wrapping_shr(b)),
            (Imm::Int128(a), Imm::Uint32(b)) => Imm::Int128(a.wrapping_shr(b)),
            (Imm::Uint8(a), Imm::Uint32(b)) => Imm::Uint8(a.wrapping_shr(b)),
            (Imm::Uint16(a), Imm::Uint32(b)) => Imm::Uint16(a.wrapping_shr(b)),
            (Imm::Uint32(a), Imm::Uint32(b)) => Imm::Uint32(a.wrapping_shr(b)),
            (Imm::Uint64(a), Imm::Uint32(b)) => Imm::Uint64(a.wrapping_shr(b)),
            (Imm::Uint128(a), Imm::Uint32(b)) => Imm::Uint128(a.wrapping_shr(b)),
            (other, _) => other,
        }
    }

    /// The bitwise or of two integers of the same type.
    pub fn bit_or(self, other: Imm) -> (r: Self)
        requires
            self@.same_int_kind(other@),
        ensures
            r@ == self@.bit_or(other@),
    {
        match (self, other) {
            (Imm::Int8(a), Imm::Int8(b)) => Imm::Int8(a | b),
            (Imm::Int16(a), Imm::Int16(b)) => Imm::Int16(a | b),
            (Imm::Int32(a), Imm::Int32(b)) => Imm::Int32(a | b),
            (Imm::Int64(a), Imm::Int64(b)) => Imm::Int64(a | b),
            (Imm::Int128(a), Imm::Int128(b)) => Imm::Int128(a | b),
            (Imm::Uint8(a), Imm::Uint8(b)) => Imm::Uint8(a | b),
            (Imm::Uint16(a), Imm::Uint16(b)) => Imm::Uint16(a | b),
            (Imm::Uint32(a), Imm::Uint32(b)) => Imm::Uint32(a | b),
            (Imm::Uint64(a), Imm::Uint64(b)) => Imm::Uint64(a | b),
            (Imm::Uint128(a), Imm::Uint128(b)) => Imm::Uint128(a | b),
            (first, _) => first,
        }
    }

    /// The bitwise exclusive or of two integers of the same type.
    pub fn bit_xor(self, other: Imm) -> (r: Self)
        requires
            self@.same_int_kind(other@),
        ensures
            r@ == self@.bit_xor(other@),
    {
        match (self, other) {
            (Imm::Int8(a), Imm::Int8(b)) => Imm::Int8(a ^ b),
            (Imm::Int16(a), Imm::Int16(b)) => Imm::Int16(a ^ b),
            (Imm::Int32(a), Imm::Int32(b)) => Imm::Int32(a ^ b),
            (Imm::Int64(a), Imm::Int64(b)) => Imm::Int64(a ^ b),
            (Imm::Int128(a), Imm::Int128(b)) => Imm::Int128(a ^ b),
            (Imm::Uint8(a), Imm::Uint8(b)) => Imm::Uint8(a ^ b),
            (Imm::Uint16(a), Imm::Uint16(b)) => Imm::Uint16(a ^ b),
            (Imm::Uint32(a), Imm::Uint32(b)) => Imm::Uint32(a ^ b),
            (Imm::Uint64(a), Imm::Uint64(b)) => Imm::Uint64(a ^ b),
            (Imm::Uint128(a), Imm::Uint128(b)) => Imm::Uint128(a ^ b),
            (first, _) => first,
        }
    }

    /// The bitwise and of two integers of the same type.
    pub fn bit_and(self, other: Imm) -> (r: Self)
        requires
            self@.same_int_kind(other@),
        ensures
            r@ == self@.bit_and(other@),
    {
        match (self, other) {
            (Imm::Int8(a), Imm::Int8(b)) => Imm::Int8(a & b),
            (Imm::Int16(a), Imm::Int16(b)) => Imm::Int16(a & b),
            (Imm::Int32(a), Imm::Int32(b)) => Imm::Int32(a & b),
            (Imm::Int64(a), Imm::Int64(b)) => Imm::Int64(a & b),
            (Imm::Int128(a), Imm::Int128(b)) => Imm::Int128(a & b),
            (Imm::Uint8(a), Imm::Uint8(b)) => Imm::Uint8(a & b),
            (Imm::Uint16(a), Imm::Uint16(b)) => Imm::Uint16(a & b),
            (Imm::Uint32(a), Imm::Uint32(b)) => Imm::Uint32(a & b),
            (Imm::Uint64(a), Imm::Uint64(b)) => Imm::Uint64(a & b),
            (Imm::Uint128(a), Imm::Uint128(b)) => Imm::Uint128(a & b),
            (first, _) => first,
        }
    }

    /// The order of two truth values, two characters, or two integers of the same type.
    pub fn compare(&self, other: &Imm) -> (r: Option<Ordering>)
        requires
            self@.same_int_kind(other@) || (self@ is Bool && other@ is Bool) || (self@ is Char
                && other@ is Char),
        ensures
            r == Some(
                if self@.rank() < other@.rank() {
                    Ordering::Less
                } else if self@.rank() == other@.rank() {
                    Ordering::Equal
                } else {
                    Ordering::Greater
                },
            ),
    {
        let (less, equal): (bool, bool) = match (self, other) {
            (Imm::Bool(a), Imm::Bool(b)) => (!*a && *b, *a == *b),
            (Imm::Char(a), Imm::Char(b)) => (*a < *b, *a == *b),
            (Imm::Int8(a), Imm::Int8(b)) => (*a < *b, *a == *b),
            (Imm::Int16(a), Imm::Int16(b)) => (*a < *b, *a == *b),
            (Imm::Int32(a), Imm::Int32(b)) => (*a < *b, *a == *b),
            (Imm::Int64(a), Imm::Int64(b)) => (*a < *b, *a == *b),
            (Imm::Int128(a), Imm::Int128(b)) => (*a < *b, *a == *b),
            (Imm::Uint8(a), Imm::Uint8(b)) => (*a < *b, *a == *b),
            (Imm::Uint16(a), Imm::Uint16(b)) => (*a < *b, *a == *b),
            (Imm::Uint32(a), Imm::Uint32(b)) => (*a < *b, *a == *b),
            (Imm::Uint64(a), Imm::Uint64(b)) => (*a < *b, *a == *b),
            (Imm::Uint128(a), Imm::Uint128(b)) => (*a < *b, *a == *b),
            _ => (false, false),
        };
        if less {
            Some(Ordering::Less)
        } else if equal {
            Some(Ordering::Equal)
        } else {
            Some(Ordering::Greater)
        }
    }

    /// How the value is shown to the user, except for floating point numbers.
    pub fn to_text(&self) -> (r: String)
        requires
            !(self@ is Float32) && !(self@ is Float64),
        ensures
            r@ == imm_text(self@),
    {
        match self {
            Imm::Bool(val) => if *val {
                "true".to_owned()
            } else {
                "false".to_owned()
            },
            Imm::Char(val) => char_text(*val),
            Imm::VarInt(val) => val.to_text(),
            Imm::Int8(val) => signed_decimal_text(*val as i128),
            Imm::Int16(val) => signed_decimal_text(*val as i128),
            Imm::Int32(val) => signed_decimal_text(*val as i128),
            Imm::Int64(val) => signed_decimal_text(*val as i128),
            Imm::Int128(val) => signed_decimal_text(*val as i128),
            Imm::Uint8(val) => decimal_text(*val as u128),
            Imm::Uint16(val) => decimal_text(*val as u128),
            Imm::Uint32(val) => decimal_text(*val as u128),
            Imm::Uint64(val) => decimal_text(*val as u128),
            Imm::Uint128(val) => decimal_text(*val as u128),
            Imm::Type(taipe) => taipe.to_text(),
            Imm::Module(scope_id) => join2("module ", &scope_id.sym_path.text),
            Imm::Null => "null".to_owned(),
            Imm::Void => "void".to_owned(),
            Imm::Float32(_) => String::new(),
            Imm::Float64(_) => String::new(),
        }
    }
}

impl ImmView {
    /// The place of a value in the order of its type.
    pub open spec fn rank(self) -> int {
        match self {
            ImmView::Bool(b) => if b {
                1
            } else {
                0
            },
            ImmView::Char(c) => c as int,
            _ => self.int_value(),
        }
    }
}

/// How a value is shown to the user, except for floating point numbers.
pub open spec fn imm_text(imm: ImmView) -> Seq<char> {
    match imm {
        ImmView::Bool(val) => if val {
            "true"@
        } else {
            "false"@
        },
        ImmView::Char(val) => seq![val],
        ImmView::VarInt(val) => signed_decimal(val),
        ImmView::Type(taipe) => type_text(taipe),
        ImmView::Module(scope_id) => "module "@ + scope_id.sym_path,
        ImmView::Null => "null"@,
        ImmView::Void => "void"@,
        _ => signed_decimal(imm.int_value()),
    }
}

impl TypeView {
    /// Whether two types are the same.
    pub open spec fn same(self, other: TypeView) -> bool {
        self == other
    }

    /// How the type is shown to the user.
    pub open spec fn to_text(self) -> Seq<char> {
        type_text(self)
    }

    /// The integer kind of the values of the type, unless it is constant.
    pub open spec fn int_kind(self) -> Option<IntKind> {
        match self {
            TypeView::Int8 => Some(IntKind::Int8),
            TypeView::Int16 => Some(IntKind::Int16),
            TypeView::Int32 => Some(IntKind::Int32),
            TypeView::Int64 => Some(IntKind::Int64),
            TypeView::Int128 => Some(IntKind::Int128),
            TypeView::Uint8 => Some(IntKind::Uint8),
            TypeView::Uint16 => Some(IntKind::Uint16),
            TypeView::Uint32 => Some(IntKind::Uint32),
            TypeView::Uint64 => Some(IntKind::Uint64),
            TypeView::Uint128 => Some(IntKind::Uint128),
            _ => None,
        }
    }

    /// Whether the values of another type can be held without loss, as wider integers.
    pub open spec fn widens_from(self, other: TypeView) -> bool {
        match (self.int_kind(), other.int_kind()) {
            (Some(to), Some(from)) => to != from && kind_signed(to) == kind_signed(from)
                && kind_max(from) < kind_max(to),
            _ => false,
        }
    }
}

/// Whether a kind has negative integers.
pub open spec fn kind_signed(kind: IntKind) -> bool {
    kind_min(kind) < 0
}

/// Whether a kind has all integers of another one, both signed or both unsigned.
pub open spec fn kind_includes(to: IntKind, from: IntKind) -> bool {
    kind_signed(to) == kind_signed(from) && kind_max(from) <= kind_max(to)
}

/// Whether a kind has all integers of another one, both signed or both unsigned.
pub fn kind_holds(to: IntKind, from: IntKind) -> (r: bool)
    ensures
        r == kind_includes(to, from),
{
    match (to, from) {
        (
            IntKind::Int128,
            IntKind::Int128 | IntKind::Int64 | IntKind::Int32 | IntKind::Int16 | IntKind::Int8,
        ) => true,
        (IntKind::Int64, IntKind::Int64 | IntKind::Int32 | IntKind::Int16 | IntKind::Int8) => true,
        (IntKind::Int32, IntKind::Int32 | IntKind::Int16 | IntKind::Int8) => true,
        (IntKind::Int16, IntKind::Int16 | IntKind::Int8) => true,
        (IntKind::Int8, IntKind::Int8) => true,
        (
            IntKind::Uint128,
            IntKind::Uint128 | IntKind::Uint64 | IntKind::Uint32 | IntKind::Uint16 | IntKind::Uint8,
        ) => true,
        (
            IntKind::Uint64,
            IntKind::Uint64 | IntKind::Uint32 | IntKind::Uint16 | IntKind::Uint8,
        ) => true,
        (IntKind::Uint32, IntKind::Uint32 | IntKind::Uint16 | IntKind::Uint8) => true,
        (IntKind::Uint16, IntKind::Uint16 | IntKind::Uint8) => true,
        (IntKind::Uint8, IntKind::Uint8) => true,
        _ => false,
    }
}

impl Type {
    /// The integer kind of the values of the type, unless it is constant.
    pub fn int_kind(&self) -> (r: Option<IntKind>)
        ensures
            r == self@.int_kind(),
    {
        match self {
            Type::Int8 => Some(IntKind::Int8),
            Type::Int16 => Some(IntKind::Int16),
            Type::Int32 => Some(IntKind::Int32),
            Type::Int64 => Some(IntKind::Int64),
            Type::Int128 => Some(IntKind::Int128),
            Type::Uint8 => Some(IntKind::Uint8),
            Type::Uint16 => Some(IntKind::Uint16),
            Type::Uint32 => Some(IntKind::Uint32),
            Type::Uint64 => Some(IntKind::Uint64),
            Type::Uint128 => Some(IntKind::Uint128),
            _ => None,
        }
    }

    /// Whether the values of another type can be held without loss, as wider integers.
    pub fn widens_from(&self, other: &Type) -> (r: bool)
        ensures
            r == self@.widens_from(other@),
    {
        match (self, other) {
            (Type::Int128, Type::Int64)
            | (Type::Int128, Type::Int32)
            | (Type::Int128, Type::Int16)
            | (Type::Int128, Type::Int8)
            | (Type::Int64, Type::Int32)
            | (Type::Int64, Type::Int16)
            | (Type::Int64, Type::Int8)
            | (Type::Int32, Type::Int16)
            | (Type::Int32, Type::Int8)
            | (Type::Int16, Type::Int8)
            | (Type::Uint128, Type::Uint64)
            | (Type::Uint128, Type::Uint32)
            | (Type::Uint128, Type::Uint16)
            | (Type::Uint128, Type::Uint8)
            | (Type::Uint64, Type::Uint32)
            | (Type::Uint64, Type::Uint16)
            | (Type::Uint64, Type::Uint8)
            | (Type::Uint32, Type::Uint16)
            | (Type::Uint32, Type::Uint8)
            | (Type::Uint16, Type::Uint8) => true,
            _ => false,
        }
    }
}

impl ImmView {
    /// The immediate value of a kind for an integer, if the kind can hold it.
    pub open spec fn of_int(kind: IntKind, value: int) -> Option<ImmView> {
        checked_int_imm(kind, value)
    }

    /// The immediate value of a kind for a size, if the kind can hold it.
    pub open spec fn of_size(kind: IntKind, value: usize) -> Option<ImmView> {
        checked_int_imm(kind, value as int)
    }

    /// The integer in another kind, cut to its width.
    pub open spec fn cast_to(self, kind: IntKind) -> ImmView {
        int_imm(kind, self.int_value())
    }

    /// Whether the value is an integer of a signed kind.
    pub open spec fn is_signed(self) -> bool {
        self.int_kind() is Some && kind_signed(self.int_kind()->0)
    }

    /// Whether the value is an integer of an unsigned kind.
    pub open spec fn is_unsigned(self) -> bool {
        self.int_kind() is Some && !kind_signed(self.int_kind()->0)
    }

    /// The integer as a floating point number.
    pub open spec fn to_float(self) -> FloatView {
        if self.is_signed() {
            FloatView::FromSigned(self.int_value() as i128)
        } else {
            FloatView::FromUnsigned(self.int_value() as u128)
        }
    }

    /// Whether the sum and the like of two values exist: they are of the same type.
    pub open spec fn can_calculate(self, other: ImmView) -> bool {
        self.same_int_kind(other) || self.same_float_kind(other)
    }

    /// Whether the value is an integer.
    pub open spec fn is_integer(self) -> bool {
        self.int_kind() is Some
    }

    /// How the value is shown to the user.
    pub open spec fn to_text(self) -> Seq<char> {
        imm_text(self)
    }
}

impl Imm {
    /// The integer kind of the value, if it has one.
    pub fn int_kind(&self) -> (r: Option<IntKind>)
        ensures
            r == self@.int_kind(),
    {
        match self {
            Imm::Int8(_) => Some(IntKind::Int8),
            Imm::Int16(_) => Some(IntKind::Int16),
            Imm::Int32(_) => Some(IntKind::Int32),
            Imm::Int64(_) => Some(IntKind::Int64),
            Imm::Int128(_) => Some(IntKind::Int128),
            Imm::Uint8(_) => Some(IntKind::Uint8),
            Imm::Uint16(_) => Some(IntKind::Uint16),
            Imm::Uint32(_) => Some(IntKind::Uint32),
            Imm::Uint64(_) => Some(IntKind::Uint64),
            Imm::Uint128(_) => Some(IntKind::Uint128),
            _ => None,
        }
    }

    /// The immediate value of a kind for an integer, if the kind can hold it.
    pub fn of_int(kind: IntKind, value: &Int) -> (r: Option<Imm>)
        ensures
            match r {
                Some(imm) => ImmView::of_int(kind, value@) == Some(imm@),
                None => ImmView::of_int(kind, value@) is None,
            },
    {
        match kind {
            IntKind::Int8 => match value.to_i8() {
                Some(n) => Some(Imm::Int8(n)),
                None => None,
            },
            IntKind::Int16 => match value.to_i16() {
                Some(n) => Some(Imm::Int16(n)),
                None => None,
            },
            IntKind::Int32 => match value.to_i32() {
                Some(n) => Some(Imm::Int32(n)),
                None => None,
            },
            IntKind::Int64 => match value.to_i64() {
                Some(n) => Some(Imm::Int64(n)),
                None => None,
            },
            IntKind::Int128 => match value.to_i128() {
                Some(n) => Some(Imm::Int128(n)),
                None => None,
            },
            IntKind::Uint8 => match value.to_u8() {
                Some(n) => Some(Imm::Uint8(n)),
                None => None,
            },
            IntKind::Uint16 => match value.to_u16() {
                Some(n) => Some(Imm::Uint16(n)),
                None => None,
            },
            IntKind::Uint32 => match value.to_u32() {
                Some(n) => Some(Imm::Uint32(n)),
                None => None,
            },
            IntKind::Uint64 => match value.to_u64() {
                Some(n) => Some(Imm::Uint64(n)),
                None => None,
            },
            IntKind::Uint128 => match value.to_u128() {
                Some(n) => Some(Imm::Uint128(n)),
                None => None,
            },
        }
    }

    /// The immediate value of a kind for a size, if the kind can hold it.
    pub fn of_size(kind: IntKind, value: usize) -> (r: Option<Imm>)
        ensures
            match r {
                Some(imm) => ImmView::of_size(kind, value) == Some(imm@),
                None => ImmView::of_size(kind, value) is None,
            },
    {
        let wide: u128 = value as u128;
        match kind {
            IntKind::Int8 => if wide <= i8::MAX as u128 {
                Some(Imm::Int8(value as i8))
            } else {
                None
            },
            IntKind::Int16 => if wide <= i16::MAX as u128 {
                Some(Imm::Int16(value as i16))
            } else {
                None
            },
            IntKind::Int32 => if wide <= i32::MAX as u128 {
                Some(Imm::Int32(value as i32))
            } else {
                None
            },
            IntKind::Int64 => if wide <= i64::MAX as u128 {
                Some(Imm::Int64(value as i64))
            } else {
                None
            },
            IntKind::Int128 => if wide <= i128::MAX as u128 {
                Some(Imm::Int128(value as i128))
            } else {
                None
            },
            IntKind::Uint8 => if wide <= u8::MAX as u128 {
                Some(Imm::Uint8(value as u8))
            } else {
                None
            },
            IntKind::Uint16 => if wide <= u16::MAX as u128 {
                Some(Imm::Uint16(value as u16))
            } else {
                None
            },
            IntKind::Uint32 => if wide <= u32::MAX as u128 {
                Some(Imm::Uint32(value as u32))
            } else {
                None
            },
            IntKind::Uint64 => if wide <= u64::MAX as u128 {
                Some(Imm::Uint64(value as u64))
            } else {
                None
            },
            IntKind::Uint128 => Some(Imm::Uint128(wide)),
        }
    }

    fn signed_value(&self) -> (r: i128)
        requires
            self@.is_signed(),
        ensures
            r == self@.int_value(),
    {
        match self {
            Imm::Int8(val) => *val as i128,
            Imm::Int16(val) => *val as i128,
            Imm::Int32(val) => *val as i128,
            Imm::Int64(val) => *val as i128,
            Imm::Int128(val) => *val as i128,
            _ => 0,
        }
    }

    fn unsigned_value(&self) -> (r: u128)
        requires
            self@.is_unsigned(),
        ensures
            r == self@.int_value(),
    {
        match self {
            Imm::Uint8(val) => *val as u128,
            Imm::Uint16(val) => *val as u128,
            Imm::Uint32(val) => *val as u128,
            Imm::Uint64(val) => *val as u128,
            Imm::Uint128(val) => *val as u128,
            _ => 0,
        }
    }

    /// Whether the value is an integer of a signed kind.
    pub fn is_signed(&self) -> (r: bool)
        ensures
            r == self@.is_signed(),
    {
        match self {
            Imm::Int8(_) | Imm::Int16(_) | Imm::Int32(_) | Imm::Int64(_) | Imm::Int128(_) => true,
            _ => false,
        }
    }

    /// Whether the value is an integer of an unsigned kind.
    pub fn is_unsigned(&self) -> (r: bool)
        ensures
            r == self@.is_unsigned(),
    {
        match self {
            Imm::Uint8(_) | Imm::Uint16(_) | Imm::Uint32(_) | Imm::Uint64(_) | Imm::Uint128(_) => {
                true
            },
            _ => false,
        }
    }

    /// Whether the value is an integer.
    pub fn is_integer(&self) -> (r: bool)
        ensures
            r == self@.is_integer(),
    {
        self.is_signed() || self.is_unsigned()
    }

    /// The integer in another kind, cut to its width.
    pub fn cast_to(&self, kind: IntKind) -> (r: Imm)
        requires
            self@.is_integer(),
        ensures
            r@ == self@.cast_to(kind),
    {
        if self.is_signed() {
            let value: i128 = self.signed_value();
            match kind {
                IntKind::Int8 => Imm::Int8(#[verifier::truncate] (value as i8)),
                IntKind::Int16 => Imm::Int16(#[verifier::truncate] (value as i16)),
                IntKind::Int32 => Imm::Int32(#[verifier::truncate] (value as i32)),
                IntKind::Int64 => Imm::Int64(#[verifier::truncate] (value as i64)),
                IntKind::Int128 => Imm::Int128(#[verifier::truncate] (value as i128)),
                IntKind::Uint8 => Imm::Uint8(#[verifier::truncate] (value as u8)),
                IntKind::Uint16 => Imm::Uint16(#[verifier::truncate] (value as u16)),
                IntKind::Uint32 => Imm::Uint32(#[verifier::truncate] (value as u32)),
                IntKind::Uint64 => Imm::Uint64(#[verifier::truncate] (value as u64)),
                IntKind::Uint128 => Imm::Uint128(#[verifier::truncate] (value as u128)),
            }
        } else {
            let value: u128 = self.unsigned_value();
            match kind {
                IntKind::Int8 => Imm::Int8(#[verifier::truncate] (value as i8)),
                IntKind::Int16 => Imm::Int16(#[verifier::truncate] (value as i16)),
                IntKind::Int32 => Imm::Int32(#[verifier::truncate] (value as i32)),
                IntKind::Int64 => Imm::Int64(#[verifier::truncate] (value as i64)),
                IntKind::Int128 => Imm::Int128(#[verifier::truncate] (value as i128)),
                IntKind::Uint8 => Imm::Uint8(#[verifier::truncate] (value as u8)),
                IntKind::Uint16 => Imm::Uint16(#[verifier::truncate] (value as u16)),
                IntKind::Uint32 => Imm::Uint32(#[verifier::truncate] (value as u32)),
                IntKind::Uint64 => Imm::Uint64(#[verifier::truncate] (value as u64)),
                IntKind::Uint128 => Imm::Uint128(#[verifier::truncate] (value as u128)),
            }
        }
    }

    /// The integer as a floating point number.
    pub fn to_float(&self) -> (r: Float)
        requires
            self@.is_integer(),
        ensures
            r@ == self@.to_float(),
    {
        if self.is_signed() {
            Float::FromSigned(self.signed_value())
        } else {
            Float::FromUnsigned(self.unsigned_value())
        }
    }

    /// Whether two values are integers of the same kind.
    pub fn same_int_kind(&self, other: &Imm) -> (r: bool)
        ensures
            r == self@.same_int_kind(other@),
    {
        match (self.int_kind(), other.int_kind()) {
            (Some(a), Some(b)) => a == b,
            _ => false,
        }
    }

    /// Whether the sum and the like of two values exist: they are of the same type.
    pub fn can_calculate(&self, other: &Imm) -> (r: bool)
        ensures
            r == self@.can_calculate(other@),
    {
        match (self, other) {
            (Imm::Float32(_), Imm::Float32(_)) => true,
            (Imm::Float64(_), Imm::Float64(_)) => true,
            _ => self.same_int_kind(other),
        }
    }

    /// Whether the value can be negated.
    pub fn can_negate(&self) -> (r: bool)
        ensures
            r == self@.can_negate(),
    {
        match self {
            Imm::Float32(_) | Imm::Float64(_) => true,
            Imm::Int8(val) => *val != i8::MIN,
            Imm::Int16(val) => *val != i16::MIN,
            Imm::Int32(val) => *val != i32::MIN,
            Imm::Int64(val) => *val != i64::MIN,
            Imm::Int128(val) => *val != i128::MIN,
            _ => false,
        }
    }
}

impl ValueView {
    /// The value that stands for no value.
    pub open spec fn from_nil() -> ValueView {
        ValueView::Imm(ImmView::Null)
    }

    /// A truth value.
    pub open spec fn from_bool(b: bool) -> ValueView {
        ValueView::Imm(ImmView::Bool(b))
    }

    /// A module.
    pub open spec fn from_module(scope_id: ScopeIdView) -> ValueView {
        ValueView::Imm(ImmView::Module(scope_id))
    }

    /// The same value several times.
    pub open spec fn repeat(value: ValueView, count: usize) -> Seq<ValueView> {
        Seq::new(count as nat, |i: int| value)
    }
}

impl ContextView {
    /// A value with its type.
    pub open spec fn make(is_lvalue: bool, taipe: TypeView, value: ValueView) -> ContextView {
        ContextView { is_lvalue, taipe, value }
    }

    /// An immediate value of the given type.
    pub open spec fn from_imm(taipe: TypeView, imm: ImmView) -> ContextView {
        imm_context(taipe, imm)
    }

    /// A truth value.
    pub open spec fn from_bool(value: bool) -> ContextView {
        imm_context(TypeView::Bool, ImmView::Bool(value))
    }

    /// The characters of a text, as an array.
    pub open spec fn from_str(text: Seq<char>) -> ContextView {
        text_context(text)
    }

    /// A type.
    pub open spec fn from_type(taipe: TypeView) -> ContextView {
        imm_context(TypeView::Typedef, ImmView::Type(taipe))
    }

    /// Nothing.
    pub open spec fn from_void() -> ContextView {
        imm_context(TypeView::Void, ImmView::Void)
    }

    /// What does not return.
    pub open spec fn from_noreturn() -> ContextView {
        imm_context(TypeView::Noreturn, ImmView::Null)
    }

    /// The context with one more constant qualifier of its type.
    pub open spec fn add_const(self) -> ContextView {
        ContextView { taipe: TypeView::Const(Box::new(self.taipe)), ..self }
    }

    /// How the context is shown to the user: by its type.
    pub open spec fn to_text(self) -> Seq<char> {
        type_text(self.taipe)
    }
}

/// The item at a position, if there is one.
pub open spec fn nth_value(values: Seq<ValueView>, i: usize) -> Option<ValueView> {
    if i < values.len() {
        Some(values[i as int])
    } else {
        None
    }
}

/// The item at a position, if there is one.
pub open spec fn nth_type(types: Seq<TypeView>, i: usize) -> Option<TypeView> {
    if i < types.len() {
        Some(types[i as int])
    } else {
        None
    }
}

/// The item at a position, if there is one.
pub fn value_at(values: &Vec<Value>, i: usize) -> (r: Option<&Value>)
    ensures
        match r {
            Some(value) => nth_value(value_models(values@), i) == Some(value@),
            None => nth_value(value_models(values@), i) is None,
        },
{
    broadcast use group_context_models;

    if i < values.len() {
        assert(value_models(values@)[i as int] == values@[i as int]@);
        Some(&values[i])
    } else {
        None
    }
}

/// The item at a position, if there is one.
pub fn type_at(types: &Vec<Type>, i: usize) -> (r: Option<&Type>)
    ensures
        match r {
            Some(taipe) => nth_type(type_models(types@), i) == Some(taipe@),
            None => nth_type(type_models(types@), i) is None,
        },
{
    if i < types.len() {
        assert(type_models(types@)[i as int] == types@[i as int]@);
        Some(&types[i])
    } else {
        None
    }
}

/// The context of an immediate value that is no place in memory.
pub open spec fn imm_context(taipe: TypeView, imm: ImmView) -> ContextView {
    ContextView { is_lvalue: false, taipe, value: ValueView::Imm(imm) }
}

impl Value {
    /// The value that stands for no value.
    pub fn from_nil() -> (r: Self)
        ensures
            r@ == ValueView::Imm(ImmView::Null),
    {
        proof {
            reveal(Value::model);
        }
        Value::Imm(Imm::Null)
    }

    /// A truth value.
    pub fn from_bool(b: bool) -> (r: Self)
        ensures
            r@ == ValueView::Imm(ImmView::Bool(b)),
    {
        proof {
            reveal(Value::model);
        }
        Value::Imm(Imm::Bool(b))
    }

    /// A character.
    pub fn from_char(c: char) -> (r: Self)
        ensures
            r@ == ValueView::Imm(ImmView::Char(c)),
    {
        proof {
            reveal(Value::model);
        }
        Value::Imm(Imm::Char(c))
    }

    /// Several values one after the other.
    pub fn from_values(values: Vec<Value>) -> (r: Self)
        ensures
            r@ == ValueView::Array(value_models(values@)),
    {
        proof {
            reveal(Value::model);
            reveal(value_models);
        }
        Value::Array(values)
    }

    /// The same value several times.
    pub fn repeat(value: &Value, count: usize) -> (r: Vec<Value>)
        ensures
            value_models(r@) == ValueView::repeat(value@, count),
    {
        broadcast use group_context_models;

        let mut values: Vec<Value> = Vec::new();
        let mut i: usize = 0;
        while i < count
            invariant
                i <= count,
                values@.len() == i,
                forall|k: int| 0 <= k < i ==> (#[trigger] values@[k])@ == value@,
            decreases count - i,
        {
            values.push(value.copy());
            i = i + 1;
        }
        proof {
            let models = value_models(values@);
            assert forall|k: int| 0 <= k < models.len() implies #[trigger] models[k] == value@ by {
                assert(models[k] == values@[k]@);
            }
            assert(models =~= ValueView::repeat(value@, count));
        }
        values
    }

    /// A module.
    pub fn from_module(scope_id: ScopeId) -> (r: Self)
        ensures
            r@ == ValueView::Imm(ImmView::Module(scope_id@)),
    {
        proof {
            reveal(Value::model);
        }
        Value::Imm(Imm::Module(scope_id))
    }
}

impl Context {
    /// The context with one more constant qualifier of its type.
    pub fn add_const(self) -> (r: Self)
        ensures
            r@ == self@.add_const(),
    {
        proof {
            reveal(Context::model);
            reveal(Type::model);
        }
        Context {
            is_lvalue: self.is_lvalue,
            taipe: Type::Const(Box::new(self.taipe)),
            value: self.value,
        }
    }

    /// An immediate value of the given type.
    pub fn from_imm(taipe: Type, imm: Imm) -> (r: Self)
        ensures
            r@ == imm_context(taipe@, imm@),
    {
        proof {
            reveal(Context::model);
            reveal(Value::model);
        }
        Context { is_lvalue: false, taipe, value: Value::Imm(imm) }
    }

    /// A truth value.
    pub fn from_bool(value: bool) -> (r: Self)
        ensures
            r@ == imm_context(TypeView::Bool, ImmView::Bool(value)),
    {
        Self::from_imm(Type::Bool, Imm::Bool(value))
    }

    /// A character.
    pub fn from_char(value: char) -> (r: Self)
        ensures
            r@ == imm_context(TypeView::Char, ImmView::Char(value)),
    {
        Self::from_imm(Type::Char, Imm::Char(value))
    }

    /// An integer of type `i8`.
    pub fn from_i8(value: i8) -> (r: Self)
        ensures
            r@ == imm_context(TypeView::Int8, ImmView::Int8(value)),
    {
        Self::from_imm(Type::Int8, Imm::Int8(value))
    }

    /// An integer of type `i16`.
    pub fn from_i16(value: i16) -> (r: Self)
        ensures
            r@ == imm_context(TypeView::Int16, ImmView::Int16(value)),
    {
        Self::from_imm(Type::Int16, Imm::Int16(value))
    }

    /// An integer of type `i32`.
    pub fn from_i32(value: i32) -> (r: Self)
        ensures
            r@ == imm_context(TypeView::Int32, ImmView::Int32(value)),
    {
        Self::from_imm(Type::Int32, Imm::Int32(value))
    }

    /// An integer of type `i64`.
    pub fn from_i64(value: i64) -> (r: Self)
        ensures
            r@ == imm_context(TypeView::Int64, ImmView::Int64(value)),
    {
        Self::from_imm(Type::Int64, Imm::Int64(value))
    }

    /// An integer of type `i128`.
    pub fn from_i128(value: i128) -> (r: Self)
        ensures
            r@ == imm_context(TypeView::Int128, ImmView::Int128(value)),
    {
        Self::from_imm(Type::Int128, Imm::Int128(value))
    }

    /// An integer of type `u8`.
    pub fn from_u8(value: u8) -> (r: Self)
        ensures
            r@ == imm_context(TypeView::Uint8, ImmView::Uint8(value)),
    {
        Self::from_imm(Type::Uint8, Imm::Uint8(value))
    }

    /// An integer of type `u16`.
    pub fn from_u16(value: u16) -> (r: Self)
        ensures
            r@ == imm_context(TypeView::Uint16, ImmView::Uint16(value)),
    {
        Self::from_imm(Type::Uint16, Imm::Uint16(value))
    }

    /// An integer of type `u32`.
    pub fn from_u32(value: u32) -> (r: Self)
        ensures
            r@ == imm_context(TypeView::Uint32, ImmView::Uint32(value)),
    {
        Self::from_imm(Type::Uint32, Imm::Uint32(value))
    }

    /// An integer of type `u64`.
    pub fn from_u64(value: u64) -> (r: Self)
        ensures
            r@ == imm_context(TypeView::Uint64, ImmView::Uint64(value)),
    {
        Self::from_imm(Type::Uint64, Imm::Uint64(value))
    }

    /// An integer of type `u128`.
    pub fn from_u128(value: u128) -> (r: Self)
        ensures
            r@ == imm_context(TypeView::Uint128, ImmView::Uint128(value)),
    {
        Self::from_imm(Type::Uint128, Imm::Uint128(value))
    }

    /// A single precision floating point number.
    pub fn from_f32(value: Float) -> (r: Self)
        ensures
            r@ == imm_context(TypeView::Float32, ImmView::Float32(value@)),
    {
        Self::from_imm(Type::Float32, Imm::Float32(value))
    }

    /// A double precision floating point number.
    pub fn from_f64(value: Float) -> (r: Self)
        ensures
            r@ == imm_context(TypeView::Float64, ImmView::Float64(value@)),
    {
        Self::from_imm(Type::Float64, Imm::Float64(value))
    }

    /// The characters of a text, as an array.
    pub fn from_str(text: &str) -> (r: Self)
        ensures
            r@ == text_context(text@),
    {
        let chars: Vec<char> = to_chars(text);
        let mut values: Vec<Value> = Vec::new();
        let mut i: usize = 0;
        while i < chars.len()
            invariant
                i <= chars@.len(),
                chars@ == text@,
                values@.len() == i,
                forall|k: int| 0 <= k < i ==> (#[trigger] values@[k])@ == ValueView::Imm(
                    ImmView::Char(text@[k]),
                ),
            decreases chars@.len() - i,
        {
            values.push(Value::from_char(chars[i]));
            i = i + 1;
        }
        proof {
            let models = value_models(values@);
            lemma_value_models_len(values@);
            assert forall|k: int| 0 <= k < models.len() implies #[trigger] models[k]
                == char_values(text@)[k] by {
                lemma_value_models_index(values@, k);
            }
            assert(models =~= char_values(text@));
        }
        let taipe: Type = Type::Array { count: values.len(), taipe: Box::new(Type::Char) };
        assert(Type::Char@ == TypeView::Char);
        Self::make(false, taipe, Value::from_values(values))
    }

    /// A type.
    pub fn from_type(taipe: Type) -> (r: Self)
        ensures
            r@ == imm_context(TypeView::Typedef, ImmView::Type(taipe@)),
    {
        Self::from_imm(Type::Typedef, Imm::Type(taipe))
    }

    /// Nothing.
    pub fn from_void() -> (r: Self)
        ensures
            r@ == imm_context(TypeView::Void, ImmView::Void),
    {
        Self::from_imm(Type::Void, Imm::Void)
    }

    /// What does not return.
    pub fn from_noreturn() -> (r: Self)
        ensures
            r@ == imm_context(TypeView::Noreturn, ImmView::Null),
    {
        Self::from_imm(Type::Noreturn, Imm::Null)
    }

    /// A value with its type.
    pub fn make(is_lvalue: bool, taipe: Type, value: Value) -> (r: Self)
        ensures
            r@ == (ContextView { is_lvalue, taipe: taipe@, value: value@ }),
    {
        proof {
            reveal(Context::model);
            reveal(Value::model);
        }
        Context { is_lvalue, taipe, value }
    }

    /// The parts of the model.
    pub proof fn lemma_parts(self)
        ensures
            self@.is_lvalue == self.is_lvalue,
            self@.taipe == self.taipe@,
            self@.value == self.value@,
    {
        reveal(Context::model);
        reveal(Value::model);
    }

    /// How the context is shown to the user: by its type.
    pub fn to_text(&self) -> (r: String)
        ensures
            r@ == type_text(self@.taipe),
    {
        proof {
            self.lemma_parts();
        }
        self.taipe.to_text()
    }
}

/// A character as a value.
pub open spec fn char_value(c: char) -> ValueView {
    ValueView::Imm(ImmView::Char(c))
}

/// The characters of a text as values.
pub open spec fn char_values(text: Seq<char>) -> Seq<ValueView> {
    Seq::new(text.len(), |i: int| char_value(text[i]))
}

/// The context of the characters of a text.
pub open spec fn text_context(text: Seq<char>) -> ContextView {
    ContextView {
        is_lvalue: false,
        taipe: TypeView::Array { count: text.len() as usize, taipe: Box::new(TypeView::Char) },
        value: ValueView::Array(char_values(text)),
    }
}

} // verus!
