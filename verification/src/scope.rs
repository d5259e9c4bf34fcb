use vstd::prelude::*;

use crate::cfg::{ControlGraph, ControlNodeId, GraphView};
use crate::common::{Layout, LineInfo, Span};
use crate::context::{Context, ContextView, Type, TypeView, Value, ValueView};
use crate::table::{Table, TableView};
use crate::text::{join3, same_text};

verus! {

/// The names that lead from the root to a scope, with dots between them.
#[derive(Debug)]
pub struct SymbolPath {
    pub text: String,
}

impl View for SymbolPath {
    type V = Seq<char>;

    open spec fn view(&self) -> Seq<char> {
        self.text@
    }
}

/// A path with one more name.
pub open spec fn path_with(path: Seq<char>, name: Seq<char>) -> Seq<char> {
    if path.len() == 0 {
        name
    } else {
        path + "."@ + name
    }
}

impl SymbolPath {
    /// The path of the root.
    pub fn new() -> (r: Self)
        ensures
            r@ == Seq::<char>::empty(),
    {
        SymbolPath { text: String::new() }
    }

    /// Adds a name at the end of the path.
    pub fn push_name(&mut self, name: &str)
        ensures
            final(self)@ == path_with(old(self)@, name@),
    {
        proof {
            reveal_strlit("");
            assert(""@ =~= Seq::<char>::empty());
            assert(self.text@.len() == 0 ==> self.text@ =~= Seq::<char>::empty());
        }
        if same_text(&self.text, "") {
            self.text = name.to_owned();
        } else {
            self.text = join3(&self.text, ".", name);
        }
    }

    /// A copy of the path.
    pub fn copy(&self) -> (r: Self)
        ensures
            r@ == self@,
    {
        SymbolPath { text: self.text.clone() }
    }
}

/// The identity of a scope: its place among all scopes, and its path.
#[derive(Debug)]
pub struct ScopeId {
    pub index: usize,
    pub sym_path: SymbolPath,
}

/// The model of the identity of a scope.
pub struct ScopeIdView {
    pub index: int,
    pub sym_path: Seq<char>,
}

impl View for ScopeId {
    type V = ScopeIdView;

    open spec fn view(&self) -> ScopeIdView {
        ScopeIdView { index: self.index as int, sym_path: self.sym_path@ }
    }
}

impl ScopeId {
    /// A copy of the identity.
    pub fn copy(&self) -> (r: Self)
        ensures
            r@ == self@,
    {
        ScopeId { index: self.index, sym_path: self.sym_path.copy() }
    }

    /// Whether two identities are the same.
    pub fn same(&self, other: &ScopeId) -> (r: bool)
        ensures
            r == (self@ == other@),
    {
        self.index == other.index && self.sym_path.text == other.sym_path.text
    }
}

/// What a scope is the scope of.
#[derive(Clone, Copy, Debug, PartialEq, Eq, Structural)]
pub enum ScopeKind {
    Unknown,
    Module,
    Function,
    Compound,
    Typedef,
    Const,
    Variable,
    Param,
    Block,
}

/// The fields of a struct or a union, or a single field.
pub enum FieldInfo {
    Struct(Vec<FieldInfo>),
    Union(Vec<FieldInfo>),
    Field { file_path: String, line_info: LineInfo, name: String, taipe: Type },
}

/// Where a field stands in memory.
pub struct FieldData {
    pub name: String,
    pub taipe: Type,
    pub file_path: String,
    pub line_info: LineInfo,
    pub offset: usize,
    pub size: usize,
    pub alignment: usize,
}

/// What is known of a struct or a union.
pub struct CompoundInfo {
    pub field: FieldInfo,
    pub layout: Layout,
    pub field_data_table: Table<FieldData>,
}

/// Where a loop continues and where it ends.
#[derive(Clone, Copy, Debug)]
pub struct LoopInfo {
    pub cf_break: ControlNodeId,
    pub cf_continue: ControlNodeId,
}

/// What is known of a function.
pub struct FunctionInfo {
    pub taipe: Type,
    pub ctx: Option<Context>,
    pub param_table: Table<ScopeId>,
    pub default_param_count: usize,
    pub loop_stack: Table<LoopInfo>,
    pub ret_line_info: Option<LineInfo>,
}

/// What is known of a parameter.
pub struct ParamInfo {
    pub taipe: Type,
    pub default: Option<Value>,
    pub line_info: LineInfo,
}

/// The control flow of a block.
pub struct BlockInfo {
    pub cfg: ControlGraph,
    pub cf_start: ControlNodeId,
    pub cf_end: ControlNodeId,
    pub cf_last: ControlNodeId,
    pub cf_unreachable: ControlNodeId,
}

/// What is known of what a scope stands for.
pub enum Payload {
    Unknown,
    LayoutResolutionInProgress,
    Compound(CompoundInfo),
    Function(FunctionInfo),
    Typedef(Type),
    Global(Context),
    Local(Type),
    Param(ParamInfo),
    Block(BlockInfo),
}

/// A scope: a name, and what it stands for.
pub struct Scope {
    pub id: ScopeId,
    pub kind: ScopeKind,
    pub file_path: Option<String>,
    pub name: String,
    pub line_info: LineInfo,
    pub payload: Payload,
    pub parent: Option<ScopeId>,
    pub children: Table<ScopeId>,
    pub unique_counter: u64,
    pub block_counter: u64,
    pub loop_counter: u64,
}

/// The model: the fields of a struct or a union, or a single field.
pub enum FieldInfoView {
    Struct(Seq<FieldInfoView>),
    Union(Seq<FieldInfoView>),
    Field { file_path: Seq<char>, line_info: Span, name: Seq<char>, taipe: TypeView },
}

/// The model: where a field stands in memory.
pub struct FieldDataView {
    pub name: Seq<char>,
    pub taipe: TypeView,
    pub file_path: Seq<char>,
    pub line_info: Span,
    pub offset: usize,
    pub size: usize,
    pub alignment: usize,
}

/// The model: what is known of a struct or a union.
pub struct CompoundInfoView {
    pub field: FieldInfoView,
    pub layout: Layout,
    pub field_data_table: TableView<FieldDataView>,
}

/// The model: where a loop continues and where it ends.
pub struct LoopInfoView {
    pub cf_break: int,
    pub cf_continue: int,
}

/// The model: what is known of a function.
pub struct FunctionInfoView {
    pub taipe: TypeView,
    pub ctx: Option<ContextView>,
    pub param_table: TableView<ScopeIdView>,
    pub default_param_count: usize,
    pub loop_stack: TableView<LoopInfoView>,
    pub ret_line_info: Option<Span>,
}

/// The model: what is known of a parameter.
pub struct ParamInfoView {
    pub taipe: TypeView,
    pub default: Option<ValueView>,
    pub line_info: Span,
}

/// The model: the control flow of a block.
pub struct BlockInfoView {
    pub cfg: GraphView,
    pub cf_start: int,
    pub cf_end: int,
    pub cf_last: int,
    pub cf_unreachable: int,
}

/// The model: what is known of what a scope stands for.
pub enum PayloadView {
    Unknown,
    LayoutResolutionInProgress,
    Compound(CompoundInfoView),
    Function(FunctionInfoView),
    Typedef(TypeView),
    Global(ContextView),
    Local(TypeView),
    Param(ParamInfoView),
    Block(BlockInfoView),
}

/// The model: a scope: a name, and what it stands for.
pub struct ScopeView {
    pub id: ScopeIdView,
    pub kind: ScopeKind,
    pub file_path: Option<Seq<char>>,
    pub name: Seq<char>,
    pub line_info: Span,
    pub payload: PayloadView,
    pub parent: Option<ScopeIdView>,
    pub children: TableView<ScopeIdView>,
    pub unique_counter: u64,
    pub block_counter: u64,
    pub loop_counter: u64,
}

impl FieldInfo {
    /// The model.
    pub open spec fn model(self) -> FieldInfoView
        decreases self,
    {
        match self {
            FieldInfo::Struct(x) => FieldInfoView::Struct(field_models(x@)),
            FieldInfo::Union(x) => FieldInfoView::Union(field_models(x@)),
            FieldInfo::Field { file_path, line_info, name, taipe } => FieldInfoView::Field {
                file_path: file_path@,
                line_info: line_info@,
                name: name@,
                taipe: taipe@,
            },
        }
    }
}

impl View for FieldInfo {
    type V = FieldInfoView;

    open spec fn view(&self) -> FieldInfoView {
        self.model()
    }
}

impl View for FieldData {
    type V = FieldDataView;

    open spec fn view(&self) -> FieldDataView {
        FieldDataView {
            name: self.name@,
            taipe: self.taipe@,
            file_path: self.file_path@,
            line_info: self.line_info@,
            offset: self.offset,
            size: self.size,
            alignment: self.alignment,
        }
    }
}

impl View for CompoundInfo {
    type V = CompoundInfoView;

    open spec fn view(&self) -> CompoundInfoView {
        CompoundInfoView {
            field: self.field.model(),
            layout: self.layout,
            field_data_table: self.field_data_table@,
        }
    }
}

impl View for LoopInfo {
    type V = LoopInfoView;

    open spec fn view(&self) -> LoopInfoView {
        LoopInfoView {
            cf_break: self.cf_break@,
            cf_continue: self.cf_continue@,
        }
    }
}

impl View for FunctionInfo {
    type V = FunctionInfoView;

    open spec fn view(&self) -> FunctionInfoView {
        FunctionInfoView {
            taipe: self.taipe@,
            ctx: match self.ctx {
 Some(v) => Some(v@),
 None => None,
 },
            param_table: self.param_table@,
            default_param_count: self.default_param_count,
            loop_stack: self.loop_stack@,
            ret_line_info: match self.ret_line_info {
 Some(v) => Some(v@),
 None => None,
 },
        }
    }
}

impl View for ParamInfo {
    type V = ParamInfoView;

    open spec fn view(&self) -> ParamInfoView {
        ParamInfoView {
            taipe: self.taipe@,
            default: match self.default {
 Some(v) => Some(v@),
 None => None,
 },
            line_info: self.line_info@,
        }
    }
}

impl View for BlockInfo {
    type V = BlockInfoView;

    open spec fn view(&self) -> BlockInfoView {
        BlockInfoView {
            cfg: self.cfg@,
            cf_start: self.cf_start@,
            cf_end: self.cf_end@,
            cf_last: self.cf_last@,
            cf_unreachable: self.cf_unreachable@,
        }
    }
}

impl View for Payload {
    type V = PayloadView;

    open spec fn view(&self) -> PayloadView {
        match *self {
            Payload::Unknown => PayloadView::Unknown,
            Payload::LayoutResolutionInProgress => PayloadView::LayoutResolutionInProgress,
            Payload::Compound(x) => PayloadView::Compound(x@),
            Payload::Function(x) => PayloadView::Function(x@),
            Payload::Typedef(x) => PayloadView::Typedef(x@),
            Payload::Global(x) => PayloadView::Global(x@),
            Payload::Local(x) => PayloadView::Local(x@),
            Payload::Param(x) => PayloadView::Param(x@),
            Payload::Block(x) => PayloadView::Block(x@),
        }
    }
}

impl View for Scope {
    type V = ScopeView;

    open spec fn view(&self) -> ScopeView {
        ScopeView {
            id: self.id@,
            kind: self.kind,
            file_path: match self.file_path {
 Some(v) => Some(v@),
 None => None,
 },
            name: self.name@,
            line_info: self.line_info@,
            payload: self.payload@,
            parent: match self.parent {
 Some(v) => Some(v@),
 None => None,
 },
            children: self.children@,
            unique_counter: self.unique_counter,
            block_counter: self.block_counter,
            loop_counter: self.loop_counter,
        }
    }
}

impl FieldInfo {
    /// A copy.
    pub fn copy(&self) -> (r: Self)
        ensures
            r@ == self@,
        decreases self,
    {
        match self {
            FieldInfo::Struct(x) => FieldInfo::Struct(copy_fields(x)),
            FieldInfo::Union(x) => FieldInfo::Union(copy_fields(x)),
            FieldInfo::Field { file_path, line_info, name, taipe } => FieldInfo::Field {
                file_path: file_path.clone(),
                line_info: *line_info,
                name: name.clone(),
                taipe: taipe.copy(),
            },
        }
    }
}

impl FieldData {
    /// A copy.
    pub fn copy(&self) -> (r: Self)
        ensures
            r@ == self@,
    {
        FieldData {
            name: self.name.clone(),
            taipe: self.taipe.copy(),
            file_path: self.file_path.clone(),
            line_info: self.line_info,
            offset: self.offset,
            size: self.size,
            alignment: self.alignment,
        }
    }
}

impl ParamInfo {
    /// A copy.
    pub fn copy(&self) -> (r: Self)
        ensures
            r@ == self@,
    {
        ParamInfo { taipe: self.taipe.copy(), default: match &self.default {
 Some(v) => Some(v.copy()),
 None => None,
 }, line_info: self.line_info }
    }
}

/// The models of several fields.
pub open spec fn field_models(items: Seq<FieldInfo>) -> Seq<FieldInfoView>
    decreases items,
{
    Seq::new(
        items.len(),
        |i: int|
            if 0 <= i < items.len() {
                items[i].model()
            } else {
                arbitrary()
            },
    )
}

/// Copies of several fields.
pub fn copy_fields(items: &Vec<FieldInfo>) -> (r: Vec<FieldInfo>)
    ensures
        field_models(r@) == field_models(items@),
    decreases items,
{
    let mut copies: Vec<FieldInfo> = Vec::new();
    let mut i: usize = 0;
    while i < items.len()
        invariant
            i <= items@.len(),
            copies@.len() == i,
            forall|k: int| 0 <= k < i ==> (#[trigger] copies@[k])@ == items@[k]@,
        decreases items@.len() - i,
    {
        assert(decreases_to!(items => items@[i as int]));
        copies.push(items[i].copy());
        i = i + 1;
    }
    assert(field_models(copies@) =~= field_models(items@));
    copies
}

/// The fields with one more field.
pub broadcast proof fn lemma_field_models_push(items: Seq<FieldInfo>, item: FieldInfo)
    ensures
        #[trigger] field_models(items.push(item)) == field_models(items).push(item@),
{
    assert(field_models(items.push(item)) =~= field_models(items).push(item@));
}

impl FieldInfoView {
    /// The region of the field with the given name, if there is one.
    pub open spec fn get_line_info_of(self, name: Seq<char>) -> Option<Span>
        decreases self, 1nat, 0nat,
    {
        match self {
            FieldInfoView::Struct(fields) => fields_line_info_of(fields, name, 0),
            FieldInfoView::Union(fields) => fields_line_info_of(fields, name, 0),
            FieldInfoView::Field { file_path, line_info, name: own, taipe } => if own == name {
                Some(line_info)
            } else {
                None
            },
        }
    }
}

/// The region of the field with the given name among the fields from the `i`-th on.
pub open spec fn fields_line_info_of(fields: Seq<FieldInfoView>, name: Seq<char>, i: int) -> Option<
    Span,
>
    decreases fields, 0nat, fields.len() - i,
{
    if i < 0 || i >= fields.len() {
        None
    } else {
        match fields[i].get_line_info_of(name) {
            Some(line_info) => Some(line_info),
            None => fields_line_info_of(fields, name, i + 1),
        }
    }
}

impl FieldInfo {
    /// The region of the field with the given name, if there is one.
    pub fn get_line_info_of(&self, name: &str) -> (r: Option<LineInfo>)
        ensures
            match r {
                Some(line_info) => self@.get_line_info_of(name@) == Some(line_info@),
                None => self@.get_line_info_of(name@) is None,
            },
        decreases self,
    {
        match self {
            FieldInfo::Struct(fields) => first_line_info_of(fields, name),
            FieldInfo::Union(fields) => first_line_info_of(fields, name),
            FieldInfo::Field { file_path: _, line_info, name: own, taipe: _ } => if same_text(
                own,
                name,
            ) {
                Some(*line_info)
            } else {
                None
            },
        }
    }
}

fn first_line_info_of(fields: &Vec<FieldInfo>, name: &str) -> (r: Option<LineInfo>)
    ensures
        match r {
            Some(line_info) => fields_line_info_of(field_models(fields@), name@, 0) == Some(
                line_info@,
            ),
            None => fields_line_info_of(field_models(fields@), name@, 0) is None,
        },
    decreases fields,
{
    let ghost models = field_models(fields@);
    let mut i: usize = 0;
    while i < fields.len()
        invariant
            i <= fields@.len(),
            models == field_models(fields@),
            fields_line_info_of(models, name@, 0) == fields_line_info_of(models, name@, i as int),
        decreases fields@.len() - i,
    {
        assert(decreases_to!(fields => fields@[i as int]));
        assert(models[i as int] == fields@[i as int]@);
        if let Some(line_info) = fields[i].get_line_info_of(name) {
            return Some(line_info);
        }
        i = i + 1;
    }
    None
}

impl FunctionInfoView {
    /// The type that the function returns, where the type is that of a function.
    pub open spec fn get_return_type(self) -> Option<TypeView> {
        match self.taipe {
            TypeView::Function { ret, params } => Some(*ret),
            _ => None,
        }
    }

    /// How many parameters the function has.
    pub open spec fn get_total_param_count(self) -> usize {
        self.param_table.values.len() as usize
    }

    /// How many arguments a call needs.
    pub open spec fn get_min_param_count(self) -> usize {
        if self.default_param_count <= self.get_total_param_count() {
            (self.get_total_param_count() - self.default_param_count) as usize
        } else {
            0
        }
    }
}

impl FunctionInfo {
    /// The type that the function returns, where the type is that of a function.
    pub fn get_return_type(&self) -> (r: Option<&Type>)
        ensures
            match r {
                Some(taipe) => self@.get_return_type() == Some(taipe@),
                None => self@.get_return_type() is None,
            },
    {
        match &self.taipe {
            Type::Function { ret, params: _ } => Some(ret),
            _ => None,
        }
    }

    /// How many parameters the function has.
    pub fn get_total_param_count(&self) -> (r: usize)
        ensures
            r == self@.get_total_param_count(),
    {
        self.param_table.len()
    }

    /// How many arguments a call needs.
    pub fn get_min_param_count(&self) -> (r: usize)
        ensures
            r == self@.get_min_param_count(),
    {
        let total: usize = self.param_table.len();
        if self.default_param_count <= total {
            total - self.default_param_count
        } else {
            0
        }
    }

    /// Whether some parameters may be left out.
    pub fn has_default_params(&self) -> (r: bool)
        ensures
            r == (self@.default_param_count > 0),
    {
        self.default_param_count > 0
    }
}

impl ScopeView {
    /// The type of what the scope stands for, if it has one.
    pub open spec fn get_type(self) -> Option<TypeView> {
        match self.payload {
            PayloadView::Function(info) => Some(info.taipe),
            PayloadView::Global(ctx) => Some(ctx.taipe),
            PayloadView::Local(taipe) => Some(taipe),
            PayloadView::Param(param) => Some(param.taipe),
            _ => None,
        }
    }
}

impl Scope {
    /// The type of what the scope stands for, if it has one.
    pub fn get_type(&self) -> (r: Option<&Type>)
        ensures
            match r {
                Some(taipe) => self@.get_type() == Some(taipe@),
                None => self@.get_type() is None,
            },
    {
        match &self.payload {
            Payload::Function(info) => Some(&info.taipe),
            Payload::Global(ctx) => {
                proof {
                    ctx.lemma_parts();
                }
                Some(&ctx.taipe)
            },
            Payload::Local(taipe) => Some(taipe),
            Payload::Param(param) => Some(&param.taipe),
            _ => None,
        }
    }
}

} // verus!
