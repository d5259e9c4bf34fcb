use vstd::prelude::*;

use crate::analyzer::analysis::is_size;
use crate::ast;
use crate::cfg::{ControlNode, ControlNodeId, ControlNodeView};
use crate::common::{
    error_models, lemma_error_models_push, lemma_texts_empty, lemma_texts_push, outcome,
    CompileError, ErrorView, LineInfo, Settings, Span, Stop, StopView,
};
use crate::context;
use crate::context::{Context, ContextView, Type, TypeView};
use crate::scope::{
    lemma_field_models_push, path_with, BlockInfo, BlockInfoView, FunctionInfo, FunctionInfoView,
    LoopInfo, LoopInfoView, Payload, PayloadView, Scope, ScopeId, ScopeIdView, ScopeKind,
    ScopeView, SymbolPath,
};
use crate::table::{law_table_insert, lemma_views_empty, lemma_views_push, views, Table, TableView};

pub mod analysis;
pub mod arithmetic_laws;
pub mod call_laws;
pub mod compeval;
pub mod compounds;
pub mod declaration_laws;
pub mod declare;
pub mod decls;
pub mod evaluation_laws;
pub mod exprs;
pub mod flow;
pub mod flow_laws;
pub mod functions;
pub mod laws;
pub mod layout;
pub mod layout_laws;
pub mod meaning_laws;
pub mod names;
pub mod operators;
pub mod size_laws;
pub mod stage_laws;
pub mod stmts;
pub mod types;
pub mod value_laws;
pub mod values;

verus! {

/// The part of the tree that a scope comes from.
#[derive(Clone, Copy)]
pub enum ScopeNode<'a> {
    Decl(&'a ast::Decl),
    Object(&'a ast::Object),
}

/// How far the analysis of a scope has come.
#[derive(Clone, Copy)]
pub enum ScopeEvalState<'a> {
    /// Scope is not visited yet
    NotVisited(ScopeNode<'a>),
    /// Visitation is in progress
    VisitInProgress,
    /// Scope has been visited
    Visited,
}

/// The model of the part of the tree that a scope comes from.
pub enum ScopeNodeView {
    Decl(ast::DeclView),
    Object(ast::ObjectView),
}

/// The model of how far the analysis of a scope has come.
pub enum ScopeEvalStateView {
    NotVisited(ScopeNodeView),
    VisitInProgress,
    Visited,
}

impl<'a> View for ScopeNode<'a> {
    type V = ScopeNodeView;

    open spec fn view(&self) -> ScopeNodeView {
        match *self {
            ScopeNode::Decl(decl) => ScopeNodeView::Decl(decl@),
            ScopeNode::Object(object) => ScopeNodeView::Object(object@),
        }
    }
}

impl<'a> View for ScopeEvalState<'a> {
    type V = ScopeEvalStateView;

    open spec fn view(&self) -> ScopeEvalStateView {
        match *self {
            ScopeEvalState::NotVisited(node) => ScopeEvalStateView::NotVisited(node@),
            ScopeEvalState::VisitInProgress => ScopeEvalStateView::VisitInProgress,
            ScopeEvalState::Visited => ScopeEvalStateView::Visited,
        }
    }
}

/// What is known of the models of several items.
pub broadcast group group_analyzer {
    ast::group_models,
    context::group_context_models,
    lemma_field_models_push,
    lemma_error_models_push,
    lemma_texts_empty,
    lemma_texts_push,
    lemma_views_empty,
    lemma_views_push,
    lemma_comes_on,
    lemma_came_from,
    lemma_gone_in,
    lemma_gone_out,
    lemma_current_stay,
    lemma_visited_stays,
    lemma_child_stays,
    lemma_in_and_out,
}

/// A state comes from itself.
pub proof fn lemma_begin(s: AnalyzerView)
    ensures
        s.comes_from(s),
{
    reveal(AnalyzerView::keeps);
    reveal(AnalyzerView::comes_from);
}

/// What keeps the scopes of a state that comes from another one comes from it too.
pub broadcast proof fn lemma_comes_on(s: AnalyzerView, t: AnalyzerView, u: AnalyzerView)
    requires
        #[trigger] t.comes_from(s),
        #[trigger] u.keeps(t),
    ensures
        u.comes_from(s),
{
    reveal(AnalyzerView::keeps);
    reveal(AnalyzerView::comes_from);
    assert forall|i: int| 0 <= i < s.scopes.len() implies (#[trigger] u.scopes[i]).parent
        == s.scopes[i].parent && u.scopes[i].id == s.scopes[i].id by {
        assert(t.scopes[i].parent == s.scopes[i].parent);
    }
    assert forall|i: int| 0 <= i < s.states.len() && s.states[i] is Visited implies (
    #[trigger] u.states[i]) is Visited by {
        assert(t.states[i] is Visited);
    }
    assert forall|i: int| 0 <= i < s.stack.len() implies #[trigger] u.stack[i] == s.stack[i] by {
        assert(t.stack[i] == s.stack[i]);
    }
}

/// What comes from a state keeps its scopes.
pub broadcast proof fn lemma_came_from(s: AnalyzerView, t: AnalyzerView)
    requires
        #[trigger] t.comes_from(s),
    ensures
        t.keeps(s),
        t.stack.len() >= s.stack.len(),
{
    reveal(AnalyzerView::keeps);
    reveal(AnalyzerView::comes_from);
}

/// Going into a scope keeps all scopes, the current ones among them.
pub broadcast proof fn lemma_gone_in(s: AnalyzerView, id: ScopeIdView)
    ensures
        (#[trigger] s.standing_in(s.stack.push(id))).keeps(s),
{
    reveal(AnalyzerView::keeps);
}

/// Going out of a scope that was gone into since a state keeps the scopes of that state.
pub broadcast proof fn lemma_gone_out(s: AnalyzerView, t: AnalyzerView)
    requires
        #[trigger] t.comes_from(s),
        t.stack.len() > s.stack.len(),
    ensures
        (#[trigger] t.pop_current_scope()).comes_from(s),
{
    reveal(AnalyzerView::keeps);
    reveal(AnalyzerView::comes_from);
}

/// The scopes that were current are current.
pub broadcast proof fn lemma_current_stay(s: AnalyzerView, t: AnalyzerView)
    requires
        t.keeps(s),
    ensures
        #[trigger] s.stack.is_prefix_of(t.stack),
{
    reveal(AnalyzerView::keeps);
    assert(t.stack.take(s.stack.len() as int) =~= s.stack);
}

/// What was visited stays visited.
pub broadcast proof fn lemma_visited_stays(s: AnalyzerView, t: AnalyzerView, id: ScopeIdView)
    requires
        #[trigger] t.keeps(s),
        #[trigger] s.is_visited(id),
    ensures
        t.is_visited(id),
{
    reveal(AnalyzerView::keeps);
}

/// A child stays a child.
pub broadcast proof fn lemma_child_stays(
    s: AnalyzerView,
    t: AnalyzerView,
    parent: ScopeIdView,
    id: ScopeIdView,
)
    requires
        #[trigger] t.keeps(s),
        #[trigger] s.is_child(parent, id),
    ensures
        t.is_child(parent, id),
{
    reveal(AnalyzerView::keeps);
}

proof fn lemma_child_added(
    s: AnalyzerView,
    parent: ScopeIdView,
    kind: ScopeKind,
    name: Seq<char>,
    state: ScopeEvalStateView,
    payload: PayloadView,
    line_info: Span,
)
    requires
        s.wf(),
        0 <= parent.index < s.scopes.len(),
    ensures
        s.add_child_scope(parent, kind, name, state, payload, line_info).0.wf(),
{
    reveal(AnalyzerView::wf);
    let (t, id) = s.add_child_scope(parent, kind, name, state, payload, line_info);
    let p = parent.index;
    let children = s.scopes[p].children;
    law_table_insert(children, name, id, name);
    assert forall|i: int, k: int|
        0 <= i < t.scopes.len() && 0 <= k < t.scopes[i].children.values.len() implies t.is_child_of(
        i,
        #[trigger] t.scopes[i].children.values[k],
    ) by {
        if i == s.scopes.len() {
        } else if i == p {
            let c = t.scopes[i].children.values[k];
            if k < children.values.len() && c == children.values[k] {
                assert(s.is_child_of(i, s.scopes[i].children.values[k]));
            } else {
                assert(c == id);
            }
        } else {
            assert(s.is_child_of(i, s.scopes[i].children.values[k]));
        }
    }
}

/// Going into a scope and out of it leads back to where one was.
pub broadcast proof fn lemma_in_and_out(stack: Seq<ScopeIdView>, id: ScopeIdView)
    ensures
        #[trigger] stack.push(id).drop_last() == stack,
{
    assert(stack.push(id).drop_last() =~= stack);
}

/// The semantic analysis of a program.
pub struct Analyzer<'a> {
    pub scopes: Vec<Scope>,
    pub states: Vec<ScopeEvalState<'a>>,
    pub roots: Table<ScopeId>,
    pub current_scope_stack: Vec<ScopeId>,
    /// The type that is used for '__int'
    pub type_int: Type,
    /// The type that is used for '__uint'
    pub type_uint: Type,
    /// The type that is used for '__isize'
    pub type_isize: Type,
    /// The type that is used for '__usize'
    pub type_usize: Type,
    pub settings: Settings,
    pub saved_errors: CompileError,
    pub warnings: Vec<CompileError>,
}

/// The model of the semantic analysis. What its functions do is written as a list of steps: each
/// step gives the state `s` for the steps after it, or it ends the list with an error.
#[verifier::ext_equal]
pub struct AnalyzerView {
    pub scopes: Seq<ScopeView>,
    pub states: Seq<ScopeEvalStateView>,
    pub roots: TableView<ScopeIdView>,
    pub stack: Seq<ScopeIdView>,
    pub type_int: TypeView,
    pub type_uint: TypeView,
    pub type_isize: TypeView,
    pub type_usize: TypeView,
    pub settings: Settings,
    pub saved_errors: ErrorView,
    pub warnings: Seq<ErrorView>,
}

impl<'a> Analyzer<'a> {
    /// The model.
    #[verifier::opaque]
    pub open spec fn model(self) -> AnalyzerView {
        AnalyzerView {
            scopes: views(self.scopes@),
            states: views(self.states@),
            roots: self.roots@,
            stack: views(self.current_scope_stack@),
            type_int: self.type_int@,
            type_uint: self.type_uint@,
            type_isize: self.type_isize@,
            type_usize: self.type_usize@,
            settings: self.settings,
            saved_errors: self.saved_errors@,
            warnings: error_models(self.warnings@),
        }
    }
}

impl<'a> View for Analyzer<'a> {
    type V = AnalyzerView;

    open spec fn view(&self) -> AnalyzerView {
        self.model()
    }
}

impl AnalyzerView {
    /// Whether there is a state for each scope, parents stand before their children, scopes
    /// without a parent name their file, the children of a scope have distinct names and have it
    /// as their parent, and the current scopes are there.
    #[verifier::opaque]
    pub open spec fn wf(self) -> bool {
        &&& is_size(self.settings.pointer_size)
        &&& self.states.len() == self.scopes.len()
        &&& self.stack.len() > 0
        &&& forall|i: int|
            0 <= i < self.stack.len() ==> 0 <= (#[trigger] self.stack[i]).index < self.scopes.len()
        &&& forall|i: int|
            0 <= i < self.scopes.len() ==> match (#[trigger] self.scopes[i]).parent {
                Some(parent) => 0 <= parent.index < i,
                None => self.scopes[i].file_path is Some,
            }
        &&& forall|i: int|
            0 <= i < self.scopes.len() ==> (#[trigger] self.scopes[i]).children.wf()
        &&& forall|i: int, k: int|
            0 <= i < self.scopes.len() && 0 <= k < self.scopes[i].children.values.len()
                ==> self.is_child_of(i, #[trigger] self.scopes[i].children.values[k])
    }

    /// Whether a scope is a child of the scope at a place.
    pub open spec fn is_child_of(self, place: int, id: ScopeIdView) -> bool {
        &&& 0 <= id.index < self.scopes.len()
        &&& 0 <= id.index < self.states.len()
        &&& self.scopes[id.index].parent matches Some(parent)
        &&& parent.index == place
    }

    /// Whether a scope is a child of another one.
    pub open spec fn is_child(self, parent: ScopeIdView, id: ScopeIdView) -> bool {
        self.is_child_of(parent.index, id)
    }

    /// Whether the visit of a scope is complete.
    pub open spec fn is_visited(self, id: ScopeIdView) -> bool {
        0 <= id.index < self.states.len() && self.states[id.index] is Visited
    }

    /// Whether no scope of an earlier state is lost, each has the identity and the parent that it
    /// had, what was visited is visited, and what was current is current, perhaps with further
    /// scopes after it.
    #[verifier::opaque]
    pub open spec fn keeps(self, before: AnalyzerView) -> bool {
        &&& self.settings == before.settings
        &&& self.scopes.len() >= before.scopes.len()
        &&& self.states.len() >= before.states.len()
        &&& forall|i: int|
            0 <= i < before.scopes.len() ==> (#[trigger] self.scopes[i]).parent
                == before.scopes[i].parent && self.scopes[i].id == before.scopes[i].id
        &&& forall|i: int|
            0 <= i < before.states.len() && before.states[i] is Visited ==> (
            #[trigger] self.states[i]) is Visited
        &&& self.stack.len() >= before.stack.len()
        &&& forall|i: int|
            0 <= i < before.stack.len() ==> #[trigger] self.stack[i] == before.stack[i]
    }

    /// Whether this keeps the scopes of the state in which something began.
    #[verifier::opaque]
    pub open spec fn comes_from(self, begin: AnalyzerView) -> bool {
        self.keeps(begin)
    }

    /// The state with other current scopes.
    pub open spec fn standing_in(self, stack: Seq<ScopeIdView>) -> AnalyzerView {
        AnalyzerView { stack, ..self }
    }

    /// Whether this comes after an earlier state: no scope is lost, neither from all scopes nor
    /// from the current ones.
    pub open spec fn follows(self, before: AnalyzerView) -> bool {
        &&& self.wf()
        &&& self.scopes.len() >= before.scopes.len()
        &&& self.states.len() >= before.states.len()
        &&& self.stack.len() >= before.stack.len()
        &&& self.keeps(before)
    }

    /// The size of pointers in bytes.
    pub open spec fn pointer_size(self) -> usize {
        self.settings.pointer_size
    }

    /// The type that is used for '__int'
    pub open spec fn int_type(self) -> TypeView {
        self.type_int
    }

    /// The type that is used for '__uint'
    pub open spec fn uint_type(self) -> TypeView {
        self.type_uint
    }

    /// The type that is used for '__isize'
    pub open spec fn isize_type(self) -> TypeView {
        self.type_isize
    }

    /// The type that is used for '__usize'
    pub open spec fn usize_type(self) -> TypeView {
        self.type_usize
    }

    /// The current scope's identity.
    pub open spec fn current_id(self) -> ScopeIdView {
        self.stack.last()
    }

    /// The scope with the given identity, if there is one.
    pub open spec fn find_scope(self, id: ScopeIdView) -> Option<ScopeView> {
        if 0 <= id.index < self.scopes.len() {
            Some(self.scopes[id.index])
        } else {
            None
        }
    }

    /// The scope with the given identity.
    pub open spec fn get_scope(self, id: ScopeIdView) -> Result<ScopeView, StopView> {
        if 0 <= id.index < self.scopes.len() {
            Ok(self.scopes[id.index])
        } else {
            Err(StopView::Unsupported("invalid scope id"@))
        }
    }

    /// The current scope.
    pub open spec fn current_scope(self) -> ScopeView {
        self.scopes[self.stack.last().index]
    }

    /// How far the analysis of a scope has come.
    pub open spec fn get_scope_eval_state(self, id: ScopeIdView) -> Result<
        ScopeEvalStateView,
        StopView,
    > {
        if 0 <= id.index < self.states.len() {
            Ok(self.states[id.index])
        } else {
            Err(StopView::Unsupported("invalid scope id"@))
        }
    }

    /// Records how far the analysis of a scope has come.
    pub open spec fn set_scope_eval_state(
        self,
        id: ScopeIdView,
        state: ScopeEvalStateView,
    ) -> AnalyzerView {
        if 0 <= id.index < self.states.len() {
            AnalyzerView { states: self.states.update(id.index, state), ..self }
        } else {
            self
        }
    }

    /// The analysis with another scope in the place of one.
    pub open spec fn with_scope(self, i: int, scope: ScopeView) -> AnalyzerView {
        AnalyzerView { scopes: self.scopes.update(i, scope), ..self }
    }

    /// Records what a scope is the scope of.
    pub open spec fn set_kind(self, id: ScopeIdView, kind: ScopeKind) -> AnalyzerView {
        if 0 <= id.index < self.scopes.len() {
            self.with_scope(id.index, ScopeView { kind, ..self.scopes[id.index] })
        } else {
            self
        }
    }

    /// Records what is known of what a scope stands for.
    pub open spec fn set_payload(self, id: ScopeIdView, payload: PayloadView) -> AnalyzerView {
        if 0 <= id.index < self.scopes.len() {
            self.with_scope(id.index, ScopeView { payload, ..self.scopes[id.index] })
        } else {
            self
        }
    }

    /// Records the region of a scope.
    pub open spec fn set_line_info(self, id: ScopeIdView, line_info: Span) -> AnalyzerView {
        if 0 <= id.index < self.scopes.len() {
            self.with_scope(id.index, ScopeView { line_info, ..self.scopes[id.index] })
        } else {
            self
        }
    }

    /// Goes into a scope.
    pub open spec fn push_current_scope(self, id: ScopeIdView) -> (
        AnalyzerView,
        Result<(), StopView>,
    ) {
        if 0 <= id.index < self.scopes.len() {
            (self.standing_in(self.stack.push(id)), Ok(()))
        } else {
            (self, Err(StopView::Unsupported("invalid scope id"@)))
        }
    }

    /// Goes back to the scope before.
    pub open spec fn pop_current_scope(self) -> AnalyzerView {
        self.standing_in(self.stack.drop_last())
    }

    /// Counts one more unnamed declaration in the current scope.
    pub open spec fn next_unique(self) -> (AnalyzerView, u64) {
        let i = self.stack.last().index;
        let count = self.scopes[i].unique_counter;
        (
            self.with_scope(
                i,
                ScopeView { unique_counter: count.wrapping_add(1), ..self.scopes[i] },
            ),
            count,
        )
    }

    /// Counts one more block in the current scope.
    pub open spec fn next_block(self) -> (AnalyzerView, u64) {
        let i = self.stack.last().index;
        let count = self.scopes[i].block_counter;
        (
            self.with_scope(
                i,
                ScopeView { block_counter: count.wrapping_add(1), ..self.scopes[i] },
            ),
            count,
        )
    }

    /// Counts one more loop in the current scope.
    pub open spec fn next_loop(self) -> (AnalyzerView, u64) {
        let i = self.stack.last().index;
        let count = self.scopes[i].loop_counter;
        (
            self.with_scope(i, ScopeView { loop_counter: count.wrapping_add(1), ..self.scopes[i] }),
            count,
        )
    }

    /// The identity of a new child of a scope.
    pub open spec fn child_id(self, parent: ScopeIdView, name: Seq<char>) -> ScopeIdView {
        ScopeIdView {
            index: self.scopes.len() as int,
            sym_path: path_with(self.scopes[parent.index].id.sym_path, name),
        }
    }

    /// Adds a child to a scope.
    pub open spec fn add_child_scope(
        self,
        parent: ScopeIdView,
        kind: ScopeKind,
        name: Seq<char>,
        state: ScopeEvalStateView,
        payload: PayloadView,
        line_info: Span,
    ) -> (AnalyzerView, ScopeIdView) {
        let id = self.child_id(parent, name);
        let child = ScopeView {
            id,
            kind,
            file_path: None,
            name,
            line_info,
            payload,
            parent: Some(parent),
            children: TableView::empty(),
            unique_counter: 0,
            block_counter: 0,
            loop_counter: 0,
        };
        let with_child = ScopeView {
            children: self.scopes[parent.index].children.inserted(name, id),
            ..self.scopes[parent.index]
        };
        (
            AnalyzerView {
                scopes: self.scopes.update(parent.index, with_child).push(child),
                states: self.states.push(state),
                ..self
            },
            id,
        )
    }

    /// Keeps a report for the end of the analysis.
    pub open spec fn save_error(self, err: ErrorView) -> AnalyzerView {
        AnalyzerView { saved_errors: self.saved_errors.chain(err), ..self }
    }

    /// Keeps a warning for the end of the analysis.
    pub open spec fn warn(self, err: ErrorView) -> AnalyzerView {
        AnalyzerView { warnings: self.warnings.push(err), ..self }
    }

    /// The closest scope around a scope that is a block.
    pub open spec fn get_enclosing_block(self, id: ScopeIdView) -> Option<ScopeIdView>
        decreases id.index,
    {
        if 0 <= id.index < self.scopes.len() {
            match self.scopes[id.index].parent {
                Some(parent) => if 0 <= parent.index < id.index {
                    if self.scopes[parent.index].kind == ScopeKind::Block {
                        Some(parent)
                    } else {
                        self.get_enclosing_block(parent)
                    }
                } else {
                    None
                },
                None => None,
            }
        } else {
            None
        }
    }

    /// The closest scope around a scope that is a function.
    pub open spec fn get_enclosing_function(self, id: ScopeIdView) -> Option<ScopeIdView>
        decreases id.index,
    {
        if 0 <= id.index < self.scopes.len() {
            match self.scopes[id.index].parent {
                Some(parent) => if 0 <= parent.index < id.index {
                    if self.scopes[parent.index].kind == ScopeKind::Function {
                        Some(parent)
                    } else {
                        self.get_enclosing_function(parent)
                    }
                } else {
                    None
                },
                None => None,
            }
        } else {
            None
        }
    }

    /// The block that the current scope is in, or that it is.
    pub open spec fn get_current_block(self) -> Option<ScopeIdView> {
        if self.current_scope().kind == ScopeKind::Block {
            Some(self.current_id())
        } else {
            self.get_enclosing_block(self.current_id())
        }
    }

    /// The function that the current scope is in, or that it is.
    pub open spec fn get_current_function(self) -> Option<ScopeIdView> {
        if self.current_scope().kind == ScopeKind::Function {
            Some(self.current_id())
        } else {
            self.get_enclosing_function(self.current_id())
        }
    }

    /// The file of a scope: that of the closest scope around it that names one.
    pub open spec fn src_path(self, id: ScopeIdView) -> Seq<char>
        decreases id.index,
    {
        if 0 <= id.index < self.scopes.len() {
            match self.scopes[id.index].file_path {
                Some(path) => path,
                None => match self.scopes[id.index].parent {
                    Some(parent) => if 0 <= parent.index < id.index {
                        self.src_path(parent)
                    } else {
                        seq![]
                    },
                    None => seq![],
                },
            }
        } else {
            seq![]
        }
    }

    /// The file of the current scope.
    pub open spec fn get_current_src_path(self) -> Seq<char> {
        self.src_path(self.current_id())
    }

    /// The file of a scope.
    pub open spec fn get_src_path_of_scope(self, id: ScopeIdView) -> Result<Seq<char>, StopView> {
        if 0 <= id.index < self.scopes.len() {
            Ok(self.src_path(id))
        } else {
            Err(StopView::Unsupported("invalid scope id"@))
        }
    }

    /// What is known of the control flow of the current block.
    pub open spec fn current_block_info(self) -> Result<(int, BlockInfoView), StopView> {
        match self.get_current_block() {
            Some(id) => if 0 <= id.index < self.scopes.len() {
                match self.scopes[id.index].payload {
                    PayloadView::Block(info) => Ok((id.index, info)),
                    _ => Err(StopView::Unsupported("probably some analyzer bug"@)),
                }
            } else {
                Err(StopView::Unsupported("invalid scope id"@))
            },
            None => Err(StopView::Unsupported("not in a block"@)),
        }
    }

    /// The last node of the control flow of the current block.
    pub open spec fn flow_last(self) -> Result<int, StopView> {
        match self.current_block_info() {
            Ok((_, info)) => Ok(info.cf_last),
            Err(e) => Err(e),
        }
    }

    /// The node where the current block ends.
    pub open spec fn flow_end(self) -> Result<int, StopView> {
        match self.current_block_info() {
            Ok((_, info)) => Ok(info.cf_end),
            Err(e) => Err(e),
        }
    }

    /// The node that is never reached.
    pub open spec fn flow_unreachable(self) -> Result<int, StopView> {
        match self.current_block_info() {
            Ok((_, info)) => Ok(info.cf_unreachable),
            Err(e) => Err(e),
        }
    }

    /// The analysis with other control flow of the block at a place.
    pub open spec fn with_block_info(self, i: int, info: BlockInfoView) -> AnalyzerView {
        self.with_scope(i, ScopeView { payload: PayloadView::Block(info), ..self.scopes[i] })
    }

    /// Adds a node to the control flow of the current block.
    pub open spec fn flow_vertex(self, node: ControlNodeView) -> (
        AnalyzerView,
        Result<int, StopView>,
    ) {
        match self.current_block_info() {
            Ok((i, info)) => (
                self.with_block_info(i, BlockInfoView { cfg: info.cfg.with_vertex(node), ..info }),
                Ok(info.cfg.place(node)),
            ),
            Err(e) => (self, Err(e)),
        }
    }

    /// Adds an edge to the control flow of the current block.
    pub open spec fn flow_edge(self, from: int, to: int) -> (AnalyzerView, Result<(), StopView>) {
        match self.current_block_info() {
            Ok((i, info)) => (
                self.with_block_info(
                    i,
                    BlockInfoView { cfg: info.cfg.with_edge(from, to), ..info },
                ),
                Ok(()),
            ),
            Err(e) => (self, Err(e)),
        }
    }

    /// Lets the control flow of the current block go on from a node.
    pub open spec fn flow_set_last(self, node_id: int) -> (AnalyzerView, Result<(), StopView>) {
        match self.current_block_info() {
            Ok((i, info)) => (
                self.with_block_info(i, BlockInfoView { cf_last: node_id, ..info }),
                Ok(()),
            ),
            Err(e) => (self, Err(e)),
        }
    }

    /// What is known of a function.
    pub open spec fn function_info(self, id: ScopeIdView) -> Result<FunctionInfoView, StopView> {
        if 0 <= id.index < self.scopes.len() {
            match self.scopes[id.index].payload {
                PayloadView::Function(info) => Ok(info),
                _ => Err(StopView::Unsupported("probably some analyzer bug"@)),
            }
        } else {
            Err(StopView::Unsupported("invalid scope id"@))
        }
    }

    /// What is known of the current function.
    pub open spec fn current_function_info(self) -> Result<(int, FunctionInfoView), StopView> {
        match self.get_current_function() {
            Some(id) => match self.function_info(id) {
                Ok(info) => Ok((id.index, info)),
                Err(e) => Err(e),
            },
            None => Err(StopView::Unsupported("not in a function"@)),
        }
    }

    /// The analysis with other knowledge of the function at a place.
    pub open spec fn with_function_info(self, i: int, info: FunctionInfoView) -> AnalyzerView {
        self.with_scope(i, ScopeView { payload: PayloadView::Function(info), ..self.scopes[i] })
    }

    /// Records the body of a function.
    pub open spec fn set_function_body(self, id: ScopeIdView, ctx: ContextView) -> (
        AnalyzerView,
        Result<(), StopView>,
    ) {
        match self.function_info(id) {
            Ok(info) => (
                self.with_function_info(id.index, FunctionInfoView { ctx: Some(ctx), ..info }),
                Ok(()),
            ),
            Err(e) => (self, Err(e)),
        }
    }

    /// Goes into a loop of the current function.
    pub open spec fn push_loop(self, name: Seq<char>, info: LoopInfoView) -> (
        AnalyzerView,
        Result<(), StopView>,
    ) {
        match self.current_function_info() {
            Ok((i, fun)) => (
                self.with_function_info(
                    i,
                    FunctionInfoView { loop_stack: fun.loop_stack.inserted(name, info), ..fun },
                ),
                Ok(()),
            ),
            Err(e) => (self, Err(e)),
        }
    }

    /// Comes out of the innermost loop of the current function.
    pub open spec fn pop_loop(self) -> (AnalyzerView, Result<(), StopView>) {
        match self.current_function_info() {
            Ok((i, fun)) => (
                self.with_function_info(
                    i,
                    FunctionInfoView { loop_stack: fun.loop_stack.popped(), ..fun },
                ),
                Ok(()),
            ),
            Err(e) => (self, Err(e)),
        }
    }
}

impl<'a> Analyzer<'a> {
    /// The size of pointers in bytes.
    pub(crate) fn pointer_size(&self) -> (r: usize)
        ensures
            r == self@.pointer_size(),
    {
        proof {
            reveal(Analyzer::model);
        }
        self.settings.pointer_size
    }

    /// The type that is used for '__int'
    pub(crate) fn int_type(&self) -> (r: Type)
        ensures
            r@ == self@.int_type(),
    {
        proof {
            reveal(Analyzer::model);
        }
        self.type_int.copy()
    }

    /// The type that is used for '__uint'
    pub(crate) fn uint_type(&self) -> (r: Type)
        ensures
            r@ == self@.uint_type(),
    {
        proof {
            reveal(Analyzer::model);
        }
        self.type_uint.copy()
    }

    /// The type that is used for '__isize'
    pub(crate) fn isize_type(&self) -> (r: Type)
        ensures
            r@ == self@.isize_type(),
    {
        proof {
            reveal(Analyzer::model);
        }
        self.type_isize.copy()
    }

    /// The type that is used for '__usize'
    pub(crate) fn usize_type(&self) -> (r: Type)
        ensures
            r@ == self@.usize_type(),
    {
        proof {
            reveal(Analyzer::model);
        }
        self.type_usize.copy()
    }

    /// The current scope's identity.
    pub(crate) fn current_id(&self) -> (r: ScopeId)
        requires
            self@.wf(),
        ensures
            r@ == self@.current_id(),
            0 <= r.index < self@.scopes.len(),
    {
        proof {
            reveal(Analyzer::model);
            reveal(AnalyzerView::wf);
            assert(self@.stack.len() == self.current_scope_stack@.len());
            assert(self@.stack.last() == self.current_scope_stack@.last()@);
        }
        self.current_scope_stack[self.current_scope_stack.len() - 1].copy()
    }

    /// The scope with the given identity, if there is one.
    pub(crate) fn find_scope(&self, id: &ScopeId) -> (r: Option<&Scope>)
        ensures
            match r {
                Some(scope) => self@.find_scope(id@) == Some(scope@),
                None => self@.find_scope(id@) is None,
            },
    {
        proof {
            reveal(Analyzer::model);
        }
        if id.index < self.scopes.len() {
            assert(self@.scopes[id.index as int] == self.scopes@[id.index as int]@);
            Some(&self.scopes[id.index])
        } else {
            None
        }
    }

    /// The scope with the given identity.
    pub(crate) fn get_scope(&self, id: &ScopeId) -> (r: Result<&Scope, Stop>)
        ensures
            outcome(r) == self@.get_scope(id@),
    {
        match self.find_scope(id) {
            Some(scope) => Ok(scope),
            None => Err(Stop::Unsupported("invalid scope id".to_owned())),
        }
    }

    /// The current scope.
    pub(crate) fn current_scope(&self) -> (r: &Scope)
        requires
            self@.wf(),
        ensures
            r@ == self@.current_scope(),
    {
        let id: ScopeId = self.current_id();
        proof {
            reveal(Analyzer::model);
            assert(self@.scopes[id.index as int] == self.scopes@[id.index as int]@);
        }
        &self.scopes[id.index]
    }

    /// How far the analysis of a scope has come.
    pub(crate) fn get_scope_eval_state(&self, id: &ScopeId) -> (r: Result<ScopeEvalState<'a>, Stop>)
        ensures
            outcome(r) == self@.get_scope_eval_state(id@),
    {
        proof {
            reveal(Analyzer::model);
        }
        if id.index < self.states.len() {
            assert(self@.states[id.index as int] == self.states@[id.index as int]@);
            Ok(self.states[id.index])
        } else {
            Err(Stop::Unsupported("invalid scope id".to_owned()))
        }
    }

    /// Records how far the analysis of a scope has come.
    pub(crate) fn set_scope_eval_state(&mut self, id: &ScopeId, state: ScopeEvalState<'a>)
        requires
            old(self)@.wf(),
        ensures
            final(self)@ == old(self)@.set_scope_eval_state(id@, state@),
            final(self)@.wf(),
            state@ is Visited || !old(self)@.is_visited(id@) ==> final(self)@.follows(old(self)@),
    {
        proof {
            reveal(Analyzer::model);
            reveal(AnalyzerView::wf);
            reveal(AnalyzerView::keeps);
        }
        let ghost before = self@;
        if id.index < self.states.len() {
            self.states[id.index] = state;
            assert(self@ =~= before.set_scope_eval_state(id@, state@));
        }
    }

    /// Records what a scope is the scope of.
    pub(crate) fn set_kind(&mut self, id: &ScopeId, kind: ScopeKind)
        requires
            old(self)@.wf(),
        ensures
            final(self)@ == old(self)@.set_kind(id@, kind),
            final(self)@.follows(old(self)@),
    {
        proof {
            reveal(Analyzer::model);
            reveal(AnalyzerView::wf);
            reveal(AnalyzerView::keeps);
        }
        let ghost before = self@;
        if id.index < self.scopes.len() {
            assert(before.scopes[id.index as int] == self.scopes@[id.index as int]@);
            self.scopes[id.index].kind = kind;
            assert(self@.scopes =~= before.set_kind(id@, kind).scopes);
        }
    }

    /// Records what is known of what a scope stands for.
    pub(crate) fn set_payload(&mut self, id: &ScopeId, payload: Payload)
        requires
            old(self)@.wf(),
        ensures
            final(self)@ == old(self)@.set_payload(id@, payload@),
            final(self)@.follows(old(self)@),
    {
        proof {
            reveal(Analyzer::model);
            reveal(AnalyzerView::wf);
            reveal(AnalyzerView::keeps);
        }
        let ghost before = self@;
        if id.index < self.scopes.len() {
            assert(before.scopes[id.index as int] == self.scopes@[id.index as int]@);
            let ghost given = payload@;
            self.scopes[id.index].payload = payload;
            assert(self@.scopes =~= before.set_payload(id@, given).scopes);
        }
    }

    /// Records the region of a scope.
    pub(crate) fn set_line_info(&mut self, id: &ScopeId, line_info: LineInfo)
        requires
            old(self)@.wf(),
        ensures
            final(self)@ == old(self)@.set_line_info(id@, line_info@),
            final(self)@.follows(old(self)@),
    {
        proof {
            reveal(Analyzer::model);
            reveal(AnalyzerView::wf);
            reveal(AnalyzerView::keeps);
        }
        let ghost before = self@;
        if id.index < self.scopes.len() {
            assert(before.scopes[id.index as int] == self.scopes@[id.index as int]@);
            let ghost given = line_info@;
            self.scopes[id.index].line_info = line_info;
            assert(self@.scopes =~= before.set_line_info(id@, given).scopes);
        }
    }

    /// Goes into a scope.
    pub(crate) fn push_current_scope(&mut self, id: &ScopeId) -> (r: Result<(), Stop>)
        requires
            old(self)@.wf(),
        ensures
            (final(self)@, outcome(r)) == old(self)@.push_current_scope(id@),
            final(self)@.follows(old(self)@),
            r is Ok ==> final(self)@.stack.len() > 1,
    {
        proof {
            reveal(Analyzer::model);
            reveal(AnalyzerView::wf);
            reveal(AnalyzerView::keeps);
        }
        let ghost before = self@;
        if id.index < self.scopes.len() {
            self.current_scope_stack.push(id.copy());
            assert(self@.stack =~= before.stack.push(id@));
            Ok(())
        } else {
            Err(Stop::Unsupported("invalid scope id".to_owned()))
        }
    }

    /// Goes back to the scope before.
    pub(crate) fn pop_current_scope(&mut self)
        requires
            old(self)@.wf(),
            old(self)@.stack.len() > 1,
        ensures
            final(self)@ == old(self)@.pop_current_scope(),
            final(self)@.wf(),
    {
        proof {
            reveal(Analyzer::model);
            reveal(AnalyzerView::wf);
            reveal(AnalyzerView::keeps);
        }
        let ghost before = self@;
        let popped: Option<ScopeId> = self.current_scope_stack.pop();
        assert(self@.stack =~= before.stack.drop_last());
    }

    /// Counts one more unnamed declaration in the current scope.
    pub(crate) fn next_unique(&mut self) -> (r: u64)
        requires
            old(self)@.wf(),
        ensures
            (final(self)@, r) == old(self)@.next_unique(),
            final(self)@.follows(old(self)@),
    {
        let i: usize = self.current_id().index;
        proof {
            reveal(Analyzer::model);
            reveal(AnalyzerView::wf);
            reveal(AnalyzerView::keeps);
        }
        let ghost before = self@;
        assert(before.scopes[i as int] == self.scopes@[i as int]@);
        let count: u64 = self.scopes[i].unique_counter;
        self.scopes[i].unique_counter = count.wrapping_add(1);
        assert(self@.scopes =~= before.next_unique().0.scopes);
        count
    }

    /// Counts one more block in the current scope.
    pub(crate) fn next_block(&mut self) -> (r: u64)
        requires
            old(self)@.wf(),
        ensures
            (final(self)@, r) == old(self)@.next_block(),
            final(self)@.follows(old(self)@),
    {
        let i: usize = self.current_id().index;
        proof {
            reveal(Analyzer::model);
            reveal(AnalyzerView::wf);
            reveal(AnalyzerView::keeps);
        }
        let ghost before = self@;
        assert(before.scopes[i as int] == self.scopes@[i as int]@);
        let count: u64 = self.scopes[i].block_counter;
        self.scopes[i].block_counter = count.wrapping_add(1);
        assert(self@.scopes =~= before.next_block().0.scopes);
        count
    }

    /// Counts one more loop in the current scope.
    pub(crate) fn next_loop(&mut self) -> (r: u64)
        requires
            old(self)@.wf(),
        ensures
            (final(self)@, r) == old(self)@.next_loop(),
            final(self)@.follows(old(self)@),
    {
        let i: usize = self.current_id().index;
        proof {
            reveal(Analyzer::model);
            reveal(AnalyzerView::wf);
            reveal(AnalyzerView::keeps);
        }
        let ghost before = self@;
        assert(before.scopes[i as int] == self.scopes@[i as int]@);
        let count: u64 = self.scopes[i].loop_counter;
        self.scopes[i].loop_counter = count.wrapping_add(1);
        assert(self@.scopes =~= before.next_loop().0.scopes);
        count
    }

    /// Adds a child to a scope.
    pub(crate) fn add_child_scope(
        &mut self,
        parent: &ScopeId,
        kind: ScopeKind,
        name: &str,
        state: ScopeEvalState<'a>,
        payload: Payload,
        line_info: LineInfo,
    ) -> (r: ScopeId)
        requires
            old(self)@.wf(),
            parent.index < old(self)@.scopes.len(),
        ensures
            (final(self)@, r@) == old(self)@.add_child_scope(
                parent@,
                kind,
                name@,
                state@,
                payload@,
                line_info@,
            ),
            final(self)@.follows(old(self)@),
            r.index == old(self)@.scopes.len(),
            final(self)@.scopes.len() == old(self)@.scopes.len() + 1,
            final(self)@.is_child(parent@, r@),
    {
        proof {
            reveal(Analyzer::model);
            reveal(AnalyzerView::wf);
            reveal(AnalyzerView::keeps);
        }
        let ghost before = self@;
        let ghost goal = before.add_child_scope(parent@, kind, name@, state@, payload@, line_info@);
        let p: usize = parent.index;
        assert(before.scopes[p as int] == self.scopes@[p as int]@);
        let mut sym_path: SymbolPath = self.scopes[p].id.sym_path.copy();
        sym_path.push_name(name);
        let id: ScopeId = ScopeId { index: self.scopes.len(), sym_path };
        let child: Scope = Scope {
            id: id.copy(),
            kind,
            file_path: None,
            name: name.to_owned(),
            line_info,
            payload,
            parent: Some(parent.copy()),
            children: Table::empty(),
            unique_counter: 0,
            block_counter: 0,
            loop_counter: 0,
        };
        let ghost child_view = child@;
        let previous: Option<ScopeId> = self.scopes[p].children.put(name.to_owned(), id.copy());
        self.scopes.push(child);
        self.states.push(state);
        proof {
            assert(self@.scopes[p as int] == goal.0.scopes[p as int]);
            assert(self@.scopes =~= goal.0.scopes);
            assert(self@.states =~= goal.0.states);
            lemma_child_added(before, parent@, kind, name@, state@, payload@, line_info@);
        }
        id
    }

    /// Keeps a report for the end of the analysis.
    pub(crate) fn save_error(&mut self, err: CompileError)
        requires
            old(self)@.wf(),
        ensures
            final(self)@ == old(self)@.save_error(err@),
            final(self)@.follows(old(self)@),
    {
        proof {
            reveal(Analyzer::model);
            reveal(AnalyzerView::wf);
            reveal(AnalyzerView::keeps);
        }
        self.saved_errors.push_err(err);
    }

    /// Keeps a warning for the end of the analysis.
    pub(crate) fn warn(&mut self, err: CompileError)
        requires
            old(self)@.wf(),
        ensures
            final(self)@ == old(self)@.warn(err@),
            final(self)@.follows(old(self)@),
    {
        proof {
            reveal(Analyzer::model);
            reveal(AnalyzerView::wf);
            reveal(AnalyzerView::keeps);
        }
        let ghost before = self@;
        let ghost given = err@;
        self.warnings.push(err);
        assert(self@.warnings =~= before.warnings.push(given));
    }

    /// The closest scope around a scope that is a block.
    pub(crate) fn get_enclosing_block(&self, id: &ScopeId) -> (r: Option<ScopeId>)
        requires
            self@.wf(),
        ensures
            match r {
                Some(found) => self@.get_enclosing_block(id@) == Some(found@)
                    && found.index < self@.scopes.len(),
                None => self@.get_enclosing_block(id@) is None,
            },
        decreases id.index,
    {
        proof {
            reveal(Analyzer::model);
            reveal(AnalyzerView::wf);
            reveal(AnalyzerView::keeps);
        }
        if id.index < self.scopes.len() {
            assert(self@.scopes[id.index as int] == self.scopes@[id.index as int]@);
            match &self.scopes[id.index].parent {
                Some(parent) => {
                    assert(parent@.index < id.index);
                    assert(self@.scopes[parent.index as int] == self.scopes@[parent.index as int]@);
                    if self.scopes[parent.index].kind == ScopeKind::Block {
                        Some(parent.copy())
                    } else {
                        self.get_enclosing_block(parent)
                    }
                },
                None => None,
            }
        } else {
            None
        }
    }

    /// The block that the current scope is in, or that it is.
    pub(crate) fn get_current_block(&self) -> (r: Option<ScopeId>)
        requires
            self@.wf(),
        ensures
            match r {
                Some(found) => self@.get_current_block() == Some(found@)
                    && found.index < self@.scopes.len(),
                None => self@.get_current_block() is None,
            },
    {
        let id: ScopeId = self.current_id();
        if self.current_scope().kind == ScopeKind::Block {
            Some(id)
        } else {
            self.get_enclosing_block(&id)
        }
    }

    /// The closest scope around a scope that is a function.
    pub(crate) fn get_enclosing_function(&self, id: &ScopeId) -> (r: Option<ScopeId>)
        requires
            self@.wf(),
        ensures
            match r {
                Some(found) => self@.get_enclosing_function(id@) == Some(found@)
                    && found.index < self@.scopes.len(),
                None => self@.get_enclosing_function(id@) is None,
            },
        decreases id.index,
    {
        proof {
            reveal(Analyzer::model);
            reveal(AnalyzerView::wf);
            reveal(AnalyzerView::keeps);
        }
        if id.index < self.scopes.len() {
            assert(self@.scopes[id.index as int] == self.scopes@[id.index as int]@);
            match &self.scopes[id.index].parent {
                Some(parent) => {
                    assert(parent@.index < id.index);
                    assert(self@.scopes[parent.index as int] == self.scopes@[parent.index as int]@);
                    if self.scopes[parent.index].kind == ScopeKind::Function {
                        Some(parent.copy())
                    } else {
                        self.get_enclosing_function(parent)
                    }
                },
                None => None,
            }
        } else {
            None
        }
    }

    /// The function that the current scope is in, or that it is.
    pub(crate) fn get_current_function(&self) -> (r: Option<ScopeId>)
        requires
            self@.wf(),
        ensures
            match r {
                Some(found) => self@.get_current_function() == Some(found@)
                    && found.index < self@.scopes.len(),
                None => self@.get_current_function() is None,
            },
    {
        let id: ScopeId = self.current_id();
        if self.current_scope().kind == ScopeKind::Function {
            Some(id)
        } else {
            self.get_enclosing_function(&id)
        }
    }

    /// The file of a scope: that of the closest scope around it that names one.
    fn src_path(&self, id: &ScopeId) -> (r: String)
        requires
            self@.wf(),
            id.index < self@.scopes.len(),
        ensures
            r@ == self@.src_path(id@),
        decreases id.index,
    {
        proof {
            reveal(Analyzer::model);
            reveal(AnalyzerView::wf);
            assert(self@.scopes[id.index as int] == self.scopes@[id.index as int]@);
        }
        match &self.scopes[id.index].file_path {
            Some(path) => path.clone(),
            None => match &self.scopes[id.index].parent {
                Some(parent) => {
                    assert(parent@.index < id.index);
                    self.src_path(parent)
                },
                None => String::new(),
            },
        }
    }

    /// The file of the current scope.
    pub(crate) fn get_current_src_path(&self) -> (r: String)
        requires
            self@.wf(),
        ensures
            r@ == self@.get_current_src_path(),
    {
        let id: ScopeId = self.current_id();
        self.src_path(&id)
    }

    /// The file of a scope.
    pub(crate) fn get_src_path_of_scope(&self, id: &ScopeId) -> (r: Result<String, Stop>)
        requires
            self@.wf(),
        ensures
            outcome(r) == self@.get_src_path_of_scope(id@),
    {
        proof {
            reveal(Analyzer::model);
        }
        if id.index < self.scopes.len() {
            Ok(self.src_path(id))
        } else {
            Err(Stop::Unsupported("invalid scope id".to_owned()))
        }
    }

    /// The place of the current block among the scopes, if its control flow is known.
    fn current_block_place(&self) -> (r: Result<usize, Stop>)
        requires
            self@.wf(),
        ensures
            match (r, self@.current_block_info()) {
                (
                    Ok(i),
                    Ok((j, info)),
                ) => i == j && i < self.scopes@.len() && self.scopes@[i as int].payload@
                    == PayloadView::Block(info),
                (Err(e), Err(f)) => e@ == f,
                _ => false,
            },
    {
        match self.get_current_block() {
            Some(id) => {
                proof {
                    reveal(Analyzer::model);
                    assert(self@.scopes[id.index as int] == self.scopes@[id.index as int]@);
                }
                match &self.scopes[id.index].payload {
                    Payload::Block(_) => Ok(id.index),
                    _ => Err(Stop::Unsupported("probably some analyzer bug".to_owned())),
                }
            },
            None => Err(Stop::Unsupported("not in a block".to_owned())),
        }
    }

    /// The last node of the control flow of the current block.
    pub(crate) fn flow_last(&self) -> (r: Result<ControlNodeId, Stop>)
        requires
            self@.wf(),
        ensures
            outcome(r) == self@.flow_last(),
    {
        match self.current_block_place() {
            Ok(i) => match &self.scopes[i].payload {
                Payload::Block(info) => Ok(info.cf_last),
                _ => Err(Stop::Unsupported("probably some analyzer bug".to_owned())),
            },
            Err(e) => Err(e),
        }
    }

    /// The node where the current block ends.
    pub(crate) fn flow_end(&self) -> (r: Result<ControlNodeId, Stop>)
        requires
            self@.wf(),
        ensures
            outcome(r) == self@.flow_end(),
    {
        match self.current_block_place() {
            Ok(i) => match &self.scopes[i].payload {
                Payload::Block(info) => Ok(info.cf_end),
                _ => Err(Stop::Unsupported("probably some analyzer bug".to_owned())),
            },
            Err(e) => Err(e),
        }
    }

    /// The node that is never reached.
    pub(crate) fn flow_unreachable(&self) -> (r: Result<ControlNodeId, Stop>)
        requires
            self@.wf(),
        ensures
            outcome(r) == self@.flow_unreachable(),
    {
        match self.current_block_place() {
            Ok(i) => match &self.scopes[i].payload {
                Payload::Block(info) => Ok(info.cf_unreachable),
                _ => Err(Stop::Unsupported("probably some analyzer bug".to_owned())),
            },
            Err(e) => Err(e),
        }
    }

    /// Adds a node to the control flow of the current block.
    pub(crate) fn flow_vertex(&mut self, node: ControlNode) -> (r: Result<ControlNodeId, Stop>)
        requires
            old(self)@.wf(),
        ensures
            (final(self)@, outcome(r)) == old(self)@.flow_vertex(node@),
            final(self)@.follows(old(self)@),
    {
        proof {
            reveal(AnalyzerView::keeps);
        }
        match self.current_block_place() {
            Ok(i) => {
                proof {
                    reveal(Analyzer::model);
                    reveal(AnalyzerView::wf);
                                }
                let ghost before = self@;
                let ghost held = self.scopes@;
                let ghost goal = before.flow_vertex(node@);
                assert(before.scopes[i as int] == self.scopes@[i as int]@);
                let mut payload: Payload = Payload::Unknown;
                std::mem::swap(&mut payload, &mut self.scopes[i].payload);
                match payload {
                    Payload::Block(block) => {
                        let mut info: BlockInfo = block;
                        let node_id: ControlNodeId = info.cfg.insert_vertex(node);
                        self.scopes[i].payload = Payload::Block(info);
                        assert(self@.scopes[i as int] == goal.0.scopes[i as int]);
                        assert(self@.scopes =~= goal.0.scopes);
                        Ok(node_id)
                    },
                    other => {
                        self.scopes[i].payload = other;
                        Err(Stop::Unsupported("probably some analyzer bug".to_owned()))
                    },
                }
            },
            Err(e) => Err(e),
        }
    }

    /// Adds an edge to the control flow of the current block.
    pub(crate) fn flow_edge(
        &mut self,
        from: ControlNodeId,
        to: ControlNodeId,
    ) -> (r: Result<(), Stop>)
        requires
            old(self)@.wf(),
        ensures
            (final(self)@, outcome(r)) == old(self)@.flow_edge(from@, to@),
            final(self)@.follows(old(self)@),
    {
        proof {
            reveal(AnalyzerView::keeps);
        }
        match self.current_block_place() {
            Ok(i) => {
                proof {
                    reveal(Analyzer::model);
                    reveal(AnalyzerView::wf);
                                }
                let ghost before = self@;
                let ghost held = self.scopes@;
                let ghost goal = before.flow_edge(from@, to@);
                assert(before.scopes[i as int] == self.scopes@[i as int]@);
                let mut payload: Payload = Payload::Unknown;
                std::mem::swap(&mut payload, &mut self.scopes[i].payload);
                match payload {
                    Payload::Block(block) => {
                        let mut info: BlockInfo = block;
                        let known: bool = info.cfg.insert_edge(from, to);
                        self.scopes[i].payload = Payload::Block(info);
                        assert(self@.scopes[i as int] == goal.0.scopes[i as int]);
                        assert(self@.scopes =~= goal.0.scopes);
                        Ok(())
                    },
                    other => {
                        self.scopes[i].payload = other;
                        Err(Stop::Unsupported("probably some analyzer bug".to_owned()))
                    },
                }
            },
            Err(e) => Err(e),
        }
    }

    /// Lets the control flow of the current block go on from a node.
    pub(crate) fn flow_set_last(&mut self, node_id: ControlNodeId) -> (r: Result<(), Stop>)
        requires
            old(self)@.wf(),
        ensures
            (final(self)@, outcome(r)) == old(self)@.flow_set_last(node_id@),
            final(self)@.follows(old(self)@),
    {
        proof {
            reveal(AnalyzerView::keeps);
        }
        match self.current_block_place() {
            Ok(i) => {
                proof {
                    reveal(Analyzer::model);
                    reveal(AnalyzerView::wf);
                                }
                let ghost before = self@;
                let ghost held = self.scopes@;
                let ghost goal = before.flow_set_last(node_id@);
                assert(before.scopes[i as int] == self.scopes@[i as int]@);
                let mut payload: Payload = Payload::Unknown;
                std::mem::swap(&mut payload, &mut self.scopes[i].payload);
                match payload {
                    Payload::Block(block) => {
                        let mut info: BlockInfo = block;
                        info.cf_last = node_id;
                        self.scopes[i].payload = Payload::Block(info);
                        assert(self@.scopes[i as int] == goal.0.scopes[i as int]);
                        assert(self@.scopes =~= goal.0.scopes);
                        Ok(())
                    },
                    other => {
                        self.scopes[i].payload = other;
                        Err(Stop::Unsupported("probably some analyzer bug".to_owned()))
                    },
                }
            },
            Err(e) => Err(e),
        }
    }

    /// What is known of a function.
    pub(crate) fn function_info(&self, id: &ScopeId) -> (r: Result<&FunctionInfo, Stop>)
        ensures
            outcome(r) == self@.function_info(id@),
    {
        match self.find_scope(id) {
            Some(scope) => match &scope.payload {
                Payload::Function(info) => Ok(info),
                _ => Err(Stop::Unsupported("probably some analyzer bug".to_owned())),
            },
            None => Err(Stop::Unsupported("invalid scope id".to_owned())),
        }
    }

    /// The current function, if it is known.
    pub(crate) fn current_function_place(&self) -> (r: Result<ScopeId, Stop>)
        requires
            self@.wf(),
        ensures
            match (r, self@.current_function_info()) {
                (
                    Ok(id),
                    Ok((j, info)),
                ) => id@.index == j && self@.get_current_function() == Some(id@)
                    && self@.function_info(id@) == Ok::<FunctionInfoView, StopView>(info),
                (Err(e), Err(f)) => e@ == f,
                _ => false,
            },
    {
        match self.get_current_function() {
            Some(id) => match self.function_info(&id) {
                Ok(_) => Ok(id),
                Err(e) => Err(e),
            },
            None => Err(Stop::Unsupported("not in a function".to_owned())),
        }
    }

    /// Records the body of a function.
    pub(crate) fn set_function_body(&mut self, id: &ScopeId, ctx: Context) -> (r: Result<(), Stop>)
        requires
            old(self)@.wf(),
        ensures
            (final(self)@, outcome(r)) == old(self)@.set_function_body(id@, ctx@),
            final(self)@.follows(old(self)@),
    {
        let i: usize = id.index;
        proof {
            reveal(Analyzer::model);
            reveal(AnalyzerView::wf);
            reveal(AnalyzerView::keeps);
        }
        let ghost before = self@;
        let ghost goal = before.set_function_body(id@, ctx@);
        if i >= self.scopes.len() {
            return Err(Stop::Unsupported("invalid scope id".to_owned()));
        }
        assert(before.scopes[i as int] == self.scopes@[i as int]@);
        let mut payload: Payload = Payload::Unknown;
        std::mem::swap(&mut payload, &mut self.scopes[i].payload);
        match payload {
            Payload::Function(fun) => {
                let mut info: FunctionInfo = fun;
                info.ctx = Some(ctx);
                self.scopes[i].payload = Payload::Function(info);
                assert(self@.scopes[i as int] == goal.0.scopes[i as int]);
                assert(self@.scopes =~= goal.0.scopes);
                Ok(())
            },
            other => {
                self.scopes[i].payload = other;
                assert(self@.scopes =~= before.scopes);
                Err(Stop::Unsupported("probably some analyzer bug".to_owned()))
            },
        }
    }

    /// Goes into a loop of the current function.
    pub(crate) fn push_loop(&mut self, name: String, loop_info: LoopInfo) -> (r: Result<(), Stop>)
        requires
            old(self)@.wf(),
        ensures
            (final(self)@, outcome(r)) == old(self)@.push_loop(name@, loop_info@),
            final(self)@.follows(old(self)@),
    {
        proof {
            reveal(AnalyzerView::keeps);
        }
        let i: usize = match self.current_function_place() {
            Ok(id) => id.index,
            Err(e) => {
                return Err(e);
            },
        };
        proof {
            reveal(Analyzer::model);
            reveal(AnalyzerView::wf);
            reveal(AnalyzerView::keeps);
        }
        let ghost before = self@;
        let ghost goal = before.push_loop(name@, loop_info@);
        if i >= self.scopes.len() {
            return Err(Stop::Unsupported("invalid scope id".to_owned()));
        }
        assert(before.scopes[i as int] == self.scopes@[i as int]@);
        let mut payload: Payload = Payload::Unknown;
        std::mem::swap(&mut payload, &mut self.scopes[i].payload);
        match payload {
            Payload::Function(fun) => {
                let mut info: FunctionInfo = fun;
                let previous: Option<LoopInfo> = info.loop_stack.put(name, loop_info);
                self.scopes[i].payload = Payload::Function(info);
                assert(self@.scopes[i as int] == goal.0.scopes[i as int]);
                assert(self@.scopes =~= goal.0.scopes);
                Ok(())
            },
            other => {
                self.scopes[i].payload = other;
                assert(self@.scopes =~= before.scopes);
                Err(Stop::Unsupported("probably some analyzer bug".to_owned()))
            },
        }
    }

    /// Comes out of the innermost loop of the current function.
    pub(crate) fn pop_loop(&mut self) -> (r: Result<(), Stop>)
        requires
            old(self)@.wf(),
        ensures
            (final(self)@, outcome(r)) == old(self)@.pop_loop(),
            final(self)@.follows(old(self)@),
    {
        proof {
            reveal(AnalyzerView::keeps);
        }
        let i: usize = match self.current_function_place() {
            Ok(id) => id.index,
            Err(e) => {
                return Err(e);
            },
        };
        proof {
            reveal(Analyzer::model);
            reveal(AnalyzerView::wf);
            reveal(AnalyzerView::keeps);
        }
        let ghost before = self@;
        let ghost goal = before.pop_loop();
        if i >= self.scopes.len() {
            return Err(Stop::Unsupported("invalid scope id".to_owned()));
        }
        assert(before.scopes[i as int] == self.scopes@[i as int]@);
        let mut payload: Payload = Payload::Unknown;
        std::mem::swap(&mut payload, &mut self.scopes[i].payload);
        match payload {
            Payload::Function(fun) => {
                let mut info: FunctionInfo = fun;
                info.loop_stack.drop_last();
                self.scopes[i].payload = Payload::Function(info);
                assert(self@.scopes[i as int] == goal.0.scopes[i as int]);
                assert(self@.scopes =~= goal.0.scopes);
                Ok(())
            },
            other => {
                self.scopes[i].payload = other;
                assert(self@.scopes =~= before.scopes);
                Err(Stop::Unsupported("probably some analyzer bug".to_owned()))
            },
        }
    }
}

} // verus!
