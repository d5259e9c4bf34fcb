use vstd::prelude::*;

use crate::analyzer::{group_analyzer, lemma_begin, Analyzer, AnalyzerView};
use crate::cfg::{
    id_models, ControlInfo, ControlInfoView, ControlNode, ControlNodeId, ControlNodeView,
};
use crate::common::{outcome, CompileError, ErrorView, Stop, StopView};
use crate::scope::{Payload, PayloadView, ScopeId, ScopeIdView};
use crate::table::{entered, with_entry, Table, TableView};
use crate::text::join2;

verus! {

/// Nodes of a control graph.
pub struct NodeSet {
    pub ids: Vec<ControlNodeId>,
}

impl View for NodeSet {
    type V = Seq<int>;

    open spec fn view(&self) -> Seq<int> {
        id_models(self.ids@)
    }
}

/// Whether a node is among several nodes.
pub open spec fn holds_node(ids: Seq<int>, id: int) -> bool {
    ids.contains(id)
}

/// The nodes with one more node.
pub open spec fn adding_node(ids: Seq<int>, id: int) -> Seq<int> {
    ids.push(id)
}

/// Whether a node is among several nodes.
pub(crate) fn has_node(set: &NodeSet, id: ControlNodeId) -> (r: bool)
    ensures
        r == holds_node(set@, id@),
{
    let mut i: usize = 0;
    while i < set.ids.len()
        invariant
            i <= set.ids@.len(),
            forall|k: int| 0 <= k < i ==> (#[trigger] set.ids@[k])@ != id@,
        decreases set.ids@.len() - i,
    {
        if set.ids[i].0 == id.0 {
            assert(set@[i as int] == id@);
            return true;
        }
        i = i + 1;
    }
    assert forall|k: int| 0 <= k < set@.len() implies set@[k] != id@ by {
        assert(set.ids@[k]@ != id@);
    }
    false
}

/// The nodes with one more node.
pub(crate) fn with_node(set: NodeSet, id: ControlNodeId) -> (r: NodeSet)
    ensures
        r@ == adding_node(set@, id@),
{
    let ghost before = set@;
    let mut ids: Vec<ControlNodeId> = set.ids;
    ids.push(id);
    let r: NodeSet = NodeSet { ids };
    assert(r@ =~= before.push(id@));
    r
}

/// No nodes.
pub(crate) fn no_nodes() -> (r: NodeSet)
    ensures
        r@ == Seq::<int>::empty(),
{
    let r: NodeSet = NodeSet { ids: Vec::new() };
    assert(r@ =~= Seq::<int>::empty());
    r
}

/// A copy of what is known of variables.
pub(crate) fn copy_infos(table: &Table<ControlInfo>) -> (r: Table<ControlInfo>)
    ensures
        r@ == table@,
{
    let mut values: Vec<ControlInfo> = Vec::new();
    let mut i: usize = 0;
    while i < table.values.len()
        invariant
            i <= table.values@.len(),
            values@.len() == i,
            forall|k: int| 0 <= k < i ==> (#[trigger] values@[k])@ == table.values@[k]@,
        decreases table.values@.len() - i,
    {
        values.push(table.values[i].copy());
        i = i + 1;
    }
    let r: Table<ControlInfo> = table.renamed(values);
    assert(r@.values =~= table@.values);
    r
}

/// Several nodes.
pub(crate) fn node_set(ids: Vec<ControlNodeId>) -> (r: NodeSet)
    ensures
        r@ == id_models(ids@),
{
    NodeSet { ids }
}

impl AnalyzerView {
    /// Adds a node after the last one of the control flow of the current block.
    #[verifier::opaque]
    pub open spec fn flow_insert(
        self,
        node: ControlNodeView,
    ) -> (AnalyzerView, Result<(), StopView>)
    {
        let s = self;
        match s.flow_vertex(node) { (s, Err(e)) => (s, Err(e)), (s, Ok(node_id)) => {
        match s.flow_last() { Err(e) => (s, Err(e)), Ok(last) => {
        match s.flow_edge(last, node_id) { (s, Err(e)) => (s, Err(e)), (s, Ok(_)) => {
        match s.flow_set_last(node_id) { (s, Err(e)) => (s, Err(e)), (s, Ok(_)) => {
        (s, Ok(()))
        }}}}}}}}
    }

    /// Ends the control flow of the current block here: it goes on nowhere.
    #[verifier::opaque]
    pub open spec fn flow_cut(
        self,
    ) -> (AnalyzerView, Result<(), StopView>)
    {
        let s = self;
        match s.flow_unreachable() { Err(e) => (s, Err(e)), Ok(nowhere) => {
        match s.flow_set_last(nowhere) { (s, Err(e)) => (s, Err(e)), (s, Ok(_)) => {
        (s, Ok(()))
        }}}}
    }

    /// The node where the control flow of a block starts.
    #[verifier::opaque]
    pub open spec fn block_start(
        self,
        scope_id: ScopeIdView,
    ) -> Result<int, StopView>
    {
        let s = self;
        match s.get_scope(scope_id) { Err(e) => Err(e), Ok(scope) => {
        match scope.payload {
            PayloadView::Block(info) => {
                Ok(info.cf_start)
            },
            _ => {
                Err(StopView::Unsupported("probably some analyzer bug"@))
            },
        }
        }}
    }

    /// A node of the control flow of a block.
    #[verifier::opaque]
    pub open spec fn block_vertex(
        self,
        scope_id: ScopeIdView,
        node_id: int,
    ) -> Result<ControlNodeView, StopView>
    {
        let s = self;
        match s.get_scope(scope_id) { Err(e) => Err(e), Ok(scope) => {
        match scope.payload {
            PayloadView::Block(info) => {
                match info.cfg.get_vertex(node_id) { None => {
                    Err(StopView::Unsupported("probably some analyzer bug"@))
                }, Some(node) => {
                Ok(node)
                }}
            },
            _ => {
                Err(StopView::Unsupported("probably some analyzer bug"@))
            },
        }
        }}
    }

    /// Where a node of the control flow of a block leads.
    #[verifier::opaque]
    pub open spec fn block_outgoing(
        self,
        scope_id: ScopeIdView,
        node_id: int,
    ) -> Result<Seq<int>, StopView>
    {
        let s = self;
        match s.get_scope(scope_id) { Err(e) => Err(e), Ok(scope) => {
        match scope.payload {
            PayloadView::Block(info) => {
                Ok((info.cfg.outgoing(node_id)))
            },
            _ => {
                Err(StopView::Unsupported("probably some analyzer bug"@))
            },
        }
        }}
    }

    /// The path of a scope.
    #[verifier::opaque]
    pub open spec fn scope_path(
        self,
        scope_id: ScopeIdView,
    ) -> Result<Seq<char>, StopView>
    {
        let s = self;
        match s.get_scope(scope_id) { Err(e) => Err(e), Ok(scope) => {
        Ok(scope.id.sym_path)
        }}
    }

    /// The name of a scope.
    #[verifier::opaque]
    pub open spec fn scope_name(
        self,
        scope_id: ScopeIdView,
    ) -> Result<Seq<char>, StopView>
    {
        let s = self;
        match s.get_scope(scope_id) { Err(e) => Err(e), Ok(scope) => {
        Ok(scope.name)
        }}
    }

    /// Follows the control flow of a block and gives the reports on variables that may be used
    /// before they have a value.
    #[verifier::opaque]
    pub open spec fn traverse_cfg(
        self,
        scope_id: ScopeIdView,
    ) -> (AnalyzerView, Result<ErrorView, StopView>)
    {
        let s = self;
        match s.block_start(scope_id) { Err(e) => (s, Err(e)), Ok(start) => {
        match s.traverse_cfg_impl(
            scope_id,
            start,
            Seq::<int>::empty(),
            TableView::empty(),
            0xffff_ffff_ffff_ffff,
        ) { (s, Err(e)) => (s, Err(e)), (s, Ok((visited, errs))) => {
        (s, Ok(errs))
        }}}}
    }

    /// Follows the control flow of a block from a node on. Nodes are visited once. What happens
    /// to variables that are not declared in this block is passed on to the block around it.
    #[verifier::opaque]
    pub open spec fn traverse_cfg_impl(
        self,
        scope_id: ScopeIdView,
        node_id: int,
        visited: Seq<int>,
        declared: TableView<ControlInfoView>,
        fuel: int,
    ) -> (AnalyzerView, Result<(Seq<int>, ErrorView), StopView>)
        decreases fuel, 1nat, 0int,
    {
        let s = self;
        if fuel <= 0 {
            (s, Err(StopView::Unsupported("nested too deeply"@)))
        } else {
        let visited = adding_node(visited, node_id);
        match s.block_vertex(scope_id, node_id) { Err(e) => (s, Err(e)), Ok(node) => {
        match node {
            ControlNodeView::Start | ControlNodeView::Junction => {
                s.traverse_next(
                    scope_id,
                    node_id,
                    false,
                    visited,
                    declared,
                    ErrorView::empty(),
                    fuel - 1,
                )
            },
            ControlNodeView::Return | ControlNodeView::End => {
                s.traverse_next(
                    scope_id,
                    node_id,
                    true,
                    visited,
                    declared,
                    ErrorView::empty(),
                    fuel - 1,
                )
            },
            ControlNodeView::Unreachable => {
                (s, Err(StopView::Unsupported("probably some control flow contruction bug"@)))
            },
            ControlNodeView::Info(info) => {
                match info {
                    ControlInfoView::VarDeclared { scope_id: var } => {
                        match s.scope_path(var) { Err(e) => (s, Err(e)), Ok(path) => {
                        let declared = entered(
                            declared,
                            path,
                            ControlInfoView::VarDeclared { scope_id: var },
                        );
                        s.traverse_next(
                            scope_id,
                            node_id,
                            false,
                            visited,
                            declared,
                            ErrorView::empty(),
                            fuel - 1,
                        )
                        }}
                    },
                    ControlInfoView::VarUsed { line_info, scope_id: var } => {
                        match s.scope_path(var) { Err(e) => (s, Err(e)), Ok(path) => {
                        match declared.find(path) {
                            Some(ControlInfoView::VarDeclared { scope_id: _ }) => {
                                match s.scope_name(var) { Err(e) => (s, Err(e)), Ok(name) => {
                                match s.scope_line(var) { Err(e) => (s, Err(e)), Ok(line) => {
                                let errs = ErrorView::triple(
                                    ErrorView::empty(),
                                    s.make_err(
                                        ("'"@ + name + "' may be uninitialized"@),
                                        line_info,
                                    ),
                                    s.make_note("declared here"@, line),
                                );
                                s.traverse_next(
                                    scope_id,
                                    node_id,
                                    false,
                                    visited,
                                    declared,
                                    errs,
                                    fuel - 1,
                                )
                                }}}}
                            },
                            Some(_) => {
                                s.traverse_next(
                                    scope_id,
                                    node_id,
                                    false,
                                    visited,
                                    declared,
                                    ErrorView::empty(),
                                    fuel - 1,
                                )
                            },
                            None => {
                                match s.flow_insert(
                                    ControlNodeView::Info(
                                        ControlInfoView::VarUsed { line_info, scope_id: var },
                                    ),
                                ) { (s, Err(e)) => (s, Err(e)), (s, Ok(_)) => {
                                s.traverse_next(
                                    scope_id,
                                    node_id,
                                    false,
                                    visited,
                                    declared,
                                    ErrorView::empty(),
                                    fuel - 1,
                                )
                                }}
                            },
                        }
                        }}
                    },
                    ControlInfoView::VarAssigned { line_info, scope_id: var } => {
                        match s.scope_path(var) { Err(e) => (s, Err(e)), Ok(path) => {
                        match declared.find(path) {
                            Some(_) => {
                                let declared = entered(
                                    declared,
                                    path,
                                    ControlInfoView::VarAssigned { line_info, scope_id: var },
                                );
                                s.traverse_next(
                                    scope_id,
                                    node_id,
                                    false,
                                    visited,
                                    declared,
                                    ErrorView::empty(),
                                    fuel - 1,
                                )
                            },
                            None => {
                                match s.flow_insert(
                                    ControlNodeView::Info(
                                        ControlInfoView::VarAssigned { line_info, scope_id: var },
                                    ),
                                ) { (s, Err(e)) => (s, Err(e)), (s, Ok(_)) => {
                                s.traverse_next(
                                    scope_id,
                                    node_id,
                                    false,
                                    visited,
                                    declared,
                                    ErrorView::empty(),
                                    fuel - 1,
                                )
                                }}
                            },
                        }
                        }}
                    },
                }
            },
        }
        }}}
    }

    /// Follows the control flow of a block to the nodes that come after a node.
    #[verifier::opaque]
    pub open spec fn traverse_next(
        self,
        scope_id: ScopeIdView,
        node_id: int,
        is_end: bool,
        visited: Seq<int>,
        declared: TableView<ControlInfoView>,
        errs: ErrorView,
        fuel: int,
    ) -> (AnalyzerView, Result<(Seq<int>, ErrorView), StopView>)
        decreases fuel, 3nat, 0int,
    {
        let s = self;
        match s.block_outgoing(scope_id, node_id) { Err(e) => (s, Err(e)), Ok(targets) => {
        s.traverse_edges(scope_id, targets, is_end, declared, visited, errs, fuel, 0)
        }}
    }

    /// Follows the control flow of a block to several nodes.
    #[verifier::opaque]
    pub open spec fn traverse_edges(
        self,
        scope_id: ScopeIdView,
        targets: Seq<int>,
        is_end: bool,
        declared: TableView<ControlInfoView>,
        visited: Seq<int>,
        errs: ErrorView,
        fuel: int,
        i: int,
    ) -> (AnalyzerView, Result<(Seq<int>, ErrorView), StopView>)
        decreases fuel, 2nat, targets.len() - i,
    {
        let s = self;
        if i < 0 || i >= targets.len() {
            (s, Ok((visited, errs)))
        } else {
        if is_end {
            (s, Err(StopView::Unsupported("the control flow goes on after its end"@)))
        } else {
        if holds_node(visited, targets[i]) {
            s.traverse_edges(scope_id, targets, is_end, declared, visited, errs, fuel, i + 1)
        } else {
        match s.traverse_cfg_impl(scope_id, targets[i], visited, (declared), fuel) {
            (s, Err(e)) => (s, Err(e)), (s, Ok((seen, more))) => {
        if more.is_empty() {
            s.traverse_edges(scope_id, targets, is_end, declared, seen, errs, fuel, i + 1)
        } else {
        s.traverse_edges(scope_id, targets, is_end, declared, seen, errs.chain(more), fuel, i + 1)
        }}}}}}
    }
}

impl<'a> Analyzer<'a> {
    /// Adds a node after the last one of the control flow of the current block.
    pub(crate) fn flow_insert(
        &mut self,
        node: ControlNode,
    ) -> (r: Result<(), Stop>)
        requires
            old(self)@.wf(),
        ensures
            (final(self)@, outcome(r)) == old(self)@.flow_insert(node@),
            final(self)@.follows(old(self)@),
            final(self)@.stack == old(self)@.stack,
    {
        broadcast use group_analyzer;

        proof {
            lemma_begin(self@);
            reveal(AnalyzerView::flow_insert);
        }
        let node_id = match self.flow_vertex(node) {
            Ok(v) => v,
            Err(e) => {
                return Err(e);
            },
        };
        let last = match self.flow_last() {
            Ok(v) => v,
            Err(e) => {
                return Err(e);
            },
        };
        match self.flow_edge(last, node_id) {
            Ok(_) => {},
            Err(e) => {
                return Err(e);
            },
        }
        match self.flow_set_last(node_id) {
            Ok(_) => {},
            Err(e) => {
                return Err(e);
            },
        }
        Ok(())
    }

    /// Ends the control flow of the current block here: it goes on nowhere.
    pub(crate) fn flow_cut(
        &mut self,
    ) -> (r: Result<(), Stop>)
        requires
            old(self)@.wf(),
        ensures
            (final(self)@, outcome(r)) == old(self)@.flow_cut(),
            final(self)@.follows(old(self)@),
            final(self)@.stack == old(self)@.stack,
    {
        broadcast use group_analyzer;

        proof {
            lemma_begin(self@);
            reveal(AnalyzerView::flow_cut);
        }
        let nowhere = match self.flow_unreachable() {
            Ok(v) => v,
            Err(e) => {
                return Err(e);
            },
        };
        match self.flow_set_last(nowhere) {
            Ok(_) => {},
            Err(e) => {
                return Err(e);
            },
        }
        Ok(())
    }

    /// The node where the control flow of a block starts.
    pub(crate) fn block_start(
        &self,
        scope_id: &ScopeId,
    ) -> (r: Result<ControlNodeId, Stop>)
        requires
            self@.wf(),
        ensures
            outcome(r) == self@.block_start(scope_id@),
    {
        broadcast use group_analyzer;

        proof {
            reveal(AnalyzerView::block_start);
        }
        let scope = match self.get_scope(scope_id) {
            Ok(v) => v,
            Err(e) => {
                return Err(e);
            },
        };
        match &scope.payload {
            Payload::Block(info) => {
                Ok(info.cf_start)
            },
            _ => {
                Err(Stop::Unsupported("probably some analyzer bug".to_owned()))
            },
        }
    }

    /// A node of the control flow of a block.
    pub(crate) fn block_vertex(
        &self,
        scope_id: &ScopeId,
        node_id: ControlNodeId,
    ) -> (r: Result<ControlNode, Stop>)
        requires
            self@.wf(),
        ensures
            outcome(r) == self@.block_vertex(scope_id@, node_id@),
    {
        broadcast use group_analyzer;

        proof {
            reveal(AnalyzerView::block_vertex);
        }
        let scope = match self.get_scope(scope_id) {
            Ok(v) => v,
            Err(e) => {
                return Err(e);
            },
        };
        match &scope.payload {
            Payload::Block(info) => {
                let Some(node) = info.cfg.get_vertex(node_id) else {
                    return Err(Stop::Unsupported("probably some analyzer bug".to_owned()));
                };
                Ok(node.copy())
            },
            _ => {
                Err(Stop::Unsupported("probably some analyzer bug".to_owned()))
            },
        }
    }

    /// Where a node of the control flow of a block leads.
    pub(crate) fn block_outgoing(
        &self,
        scope_id: &ScopeId,
        node_id: ControlNodeId,
    ) -> (r: Result<NodeSet, Stop>)
        requires
            self@.wf(),
        ensures
            outcome(r) == self@.block_outgoing(scope_id@, node_id@),
    {
        broadcast use group_analyzer;

        proof {
            reveal(AnalyzerView::block_outgoing);
        }
        let scope = match self.get_scope(scope_id) {
            Ok(v) => v,
            Err(e) => {
                return Err(e);
            },
        };
        match &scope.payload {
            Payload::Block(info) => {
                Ok(node_set(info.cfg.outgoing(node_id)))
            },
            _ => {
                Err(Stop::Unsupported("probably some analyzer bug".to_owned()))
            },
        }
    }

    /// The path of a scope.
    pub(crate) fn scope_path(
        &self,
        scope_id: &ScopeId,
    ) -> (r: Result<String, Stop>)
        requires
            self@.wf(),
        ensures
            outcome(r) == self@.scope_path(scope_id@),
    {
        broadcast use group_analyzer;

        proof {
            reveal(AnalyzerView::scope_path);
        }
        let scope = match self.get_scope(scope_id) {
            Ok(v) => v,
            Err(e) => {
                return Err(e);
            },
        };
        Ok(scope.id.sym_path.text.clone())
    }

    /// The name of a scope.
    pub(crate) fn scope_name(
        &self,
        scope_id: &ScopeId,
    ) -> (r: Result<String, Stop>)
        requires
            self@.wf(),
        ensures
            outcome(r) == self@.scope_name(scope_id@),
    {
        broadcast use group_analyzer;

        proof {
            reveal(AnalyzerView::scope_name);
        }
        let scope = match self.get_scope(scope_id) {
            Ok(v) => v,
            Err(e) => {
                return Err(e);
            },
        };
        Ok(scope.name.clone())
    }

    /// Follows the control flow of a block and gives the reports on variables that may be used
    /// before they have a value.
    pub(crate) fn traverse_cfg(
        &mut self,
        scope_id: &ScopeId,
    ) -> (r: Result<CompileError, Stop>)
        requires
            old(self)@.wf(),
        ensures
            (final(self)@, outcome(r)) == old(self)@.traverse_cfg(scope_id@),
            final(self)@.follows(old(self)@),
            final(self)@.stack == old(self)@.stack,
    {
        broadcast use group_analyzer;

        proof {
            lemma_begin(self@);
            reveal(AnalyzerView::traverse_cfg);
        }
        let start = match self.block_start(scope_id) {
            Ok(v) => v,
            Err(e) => {
                return Err(e);
            },
        };
        let (visited, errs) = match self.traverse_cfg_impl(
            scope_id,
            start,
            no_nodes(),
            Table::empty(),
            0xffff_ffff_ffff_ffff,
        ) {
            Ok(v) => v,
            Err(e) => {
                return Err(e);
            },
        };
        Ok(errs)
    }

    /// Follows the control flow of a block from a node on. Nodes are visited once. What happens
    /// to variables that are not declared in this block is passed on to the block around it.
    pub(crate) fn traverse_cfg_impl(
        &mut self,
        scope_id: &ScopeId,
        node_id: ControlNodeId,
        visited: NodeSet,
        declared: Table<ControlInfo>,
        fuel: u64,
    ) -> (r: Result<(NodeSet, CompileError), Stop>)
        requires
            old(self)@.wf(),
        ensures
            (final(self)@, outcome(r)) == old(self)@.traverse_cfg_impl(
                scope_id@,
                node_id@,
                visited@,
                declared@,
                fuel as int,
            ),
            final(self)@.follows(old(self)@),
            final(self)@.stack == old(self)@.stack,
        decreases fuel, 1nat,
    {
        broadcast use group_analyzer;

        proof {
            lemma_begin(self@);
            reveal(AnalyzerView::traverse_cfg_impl);
            reveal(AnalyzerView::traverse_next);
        }
        if fuel == 0 {
            return Err(Stop::Unsupported("nested too deeply".to_owned()));
        }
        let visited = with_node(visited, node_id);
        let node = match self.block_vertex(scope_id, node_id) {
            Ok(v) => v,
            Err(e) => {
                return Err(e);
            },
        };
        match node {
            ControlNode::Start | ControlNode::Junction => {
                self.traverse_next(
                    scope_id,
                    node_id,
                    false,
                    visited,
                    declared,
                    CompileError::new(),
                    fuel - 1,
                )
            },
            ControlNode::Return | ControlNode::End => {
                self.traverse_next(
                    scope_id,
                    node_id,
                    true,
                    visited,
                    declared,
                    CompileError::new(),
                    fuel - 1,
                )
            },
            ControlNode::Unreachable => {
                Err(Stop::Unsupported("probably some control flow contruction bug".to_owned()))
            },
            ControlNode::Info(info) => {
                match info {
                    ControlInfo::VarDeclared { scope_id: var } => {
                        let path = match self.scope_path(&var) {
                            Ok(v) => v,
                            Err(e) => {
                                return Err(e);
                            },
                        };
                        let declared = with_entry(
                            declared,
                            path,
                            ControlInfo::VarDeclared { scope_id: var },
                        );
                        self.traverse_next(
                            scope_id,
                            node_id,
                            false,
                            visited,
                            declared,
                            CompileError::new(),
                            fuel - 1,
                        )
                    },
                    ControlInfo::VarUsed { line_info, scope_id: var } => {
                        let path = match self.scope_path(&var) {
                            Ok(v) => v,
                            Err(e) => {
                                return Err(e);
                            },
                        };
                        match declared.find(&path) {
                            Some(ControlInfo::VarDeclared { scope_id: _ }) => {
                                let name = match self.scope_name(&var) {
                                    Ok(v) => v,
                                    Err(e) => {
                                        return Err(e);
                                    },
                                };
                                let line = match self.scope_line(&var) {
                                    Ok(v) => v,
                                    Err(e) => {
                                        return Err(e);
                                    },
                                };
                                let errs = CompileError::triple(
                                    CompileError::new(),
                                    self.make_err(
                                        &join2(&join2("'", &name), "' may be uninitialized"),
                                        line_info,
                                    ),
                                    self.make_note("declared here", line),
                                );
                                self.traverse_next(
                                    scope_id,
                                    node_id,
                                    false,
                                    visited,
                                    declared,
                                    errs,
                                    fuel - 1,
                                )
                            },
                            Some(_) => {
                                self.traverse_next(
                                    scope_id,
                                    node_id,
                                    false,
                                    visited,
                                    declared,
                                    CompileError::new(),
                                    fuel - 1,
                                )
                            },
                            None => {
                                match self.flow_insert(
                                    ControlNode::Info(
                                        ControlInfo::VarUsed { line_info, scope_id: var },
                                    ),
                                ) {
                                    Ok(_) => {},
                                    Err(e) => {
                                        return Err(e);
                                    },
                                }
                                self.traverse_next(
                                    scope_id,
                                    node_id,
                                    false,
                                    visited,
                                    declared,
                                    CompileError::new(),
                                    fuel - 1,
                                )
                            },
                        }
                    },
                    ControlInfo::VarAssigned { line_info, scope_id: var } => {
                        let path = match self.scope_path(&var) {
                            Ok(v) => v,
                            Err(e) => {
                                return Err(e);
                            },
                        };
                        match declared.find(&path) {
                            Some(_) => {
                                let declared = with_entry(
                                    declared,
                                    path,
                                    ControlInfo::VarAssigned { line_info, scope_id: var },
                                );
                                self.traverse_next(
                                    scope_id,
                                    node_id,
                                    false,
                                    visited,
                                    declared,
                                    CompileError::new(),
                                    fuel - 1,
                                )
                            },
                            None => {
                                match self.flow_insert(
                                    ControlNode::Info(
                                        ControlInfo::VarAssigned { line_info, scope_id: var },
                                    ),
                                ) {
                                    Ok(_) => {},
                                    Err(e) => {
                                        return Err(e);
                                    },
                                }
                                self.traverse_next(
                                    scope_id,
                                    node_id,
                                    false,
                                    visited,
                                    declared,
                                    CompileError::new(),
                                    fuel - 1,
                                )
                            },
                        }
                    },
                }
            },
        }
    }

    /// Follows the control flow of a block to the nodes that come after a node.
    pub(crate) fn traverse_next(
        &mut self,
        scope_id: &ScopeId,
        node_id: ControlNodeId,
        is_end: bool,
        visited: NodeSet,
        declared: Table<ControlInfo>,
        errs: CompileError,
        fuel: u64,
    ) -> (r: Result<(NodeSet, CompileError), Stop>)
        requires
            old(self)@.wf(),
        ensures
            (final(self)@, outcome(r)) == old(self)@.traverse_next(
                scope_id@,
                node_id@,
                is_end,
                visited@,
                declared@,
                errs@,
                fuel as int,
            ),
            final(self)@.follows(old(self)@),
            final(self)@.stack == old(self)@.stack,
        decreases fuel, 3nat,
    {
        broadcast use group_analyzer;

        proof {
            lemma_begin(self@);
            reveal(AnalyzerView::traverse_next);
            reveal(AnalyzerView::traverse_edges);
        }
        let targets = match self.block_outgoing(scope_id, node_id) {
            Ok(v) => v,
            Err(e) => {
                return Err(e);
            },
        };
        self.traverse_edges(scope_id, &targets.ids, is_end, &declared, visited, errs, fuel)
    }

    /// Follows the control flow of a block to several nodes.
    #[verifier::loop_isolation(false)]
    pub(crate) fn traverse_edges(
        &mut self,
        scope_id: &ScopeId,
        targets: &Vec<ControlNodeId>,
        is_end: bool,
        declared: &Table<ControlInfo>,
        visited: NodeSet,
        errs: CompileError,
        fuel: u64,
    ) -> (r: Result<(NodeSet, CompileError), Stop>)
        requires
            old(self)@.wf(),
        ensures
            (final(self)@, outcome(r)) == old(self)@.traverse_edges(
                scope_id@,
                id_models(targets@),
                is_end,
                declared@,
                visited@,
                errs@,
                fuel as int,
                0,
            ),
            final(self)@.follows(old(self)@),
            final(self)@.stack == old(self)@.stack,
        decreases fuel, 2nat,
    {
        broadcast use group_analyzer;

        proof {
            lemma_begin(self@);
            reveal(AnalyzerView::traverse_edges);
            reveal(AnalyzerView::traverse_cfg_impl);
        }
        let ghost goal = self@.traverse_edges(
            scope_id@,
            id_models(targets@),
            is_end,
            declared@,
            visited@,
            errs@,
            fuel as int,
            0,
        );
        let ghost begin = self@;
        let mut visited: NodeSet = visited;
        let mut errs: CompileError = errs;
        let mut i: usize = 0;
        while i < targets.len()
            invariant
                i <= targets@.len(),
                goal == self@.traverse_edges(
                    scope_id@,
                    id_models(targets@),
                    is_end,
                    declared@,
                    visited@,
                    errs@,
                    fuel as int,
                    i as int,
                ),
                self@.follows(begin),
                self@.comes_from(begin),
                self@.stack == begin.stack,
            decreases targets@.len() - i,
        {
            proof {
                reveal(AnalyzerView::traverse_edges);
                reveal(AnalyzerView::traverse_cfg_impl);
            }
            if is_end {
                return Err(Stop::Unsupported("the control flow goes on after its end".to_owned()));
            }
            if has_node(&visited, targets[i]) {
                i = i + 1;
                continue;
            }
            let (seen, more) = match self.traverse_cfg_impl(
                scope_id,
                targets[i],
                visited,
                copy_infos(declared),
                fuel,
            ) {
                Ok(v) => v,
                Err(e) => {
                    return Err(e);
                },
            };
            if more.is_empty() {
                visited = seen;
                i = i + 1;
                continue;
            }
            visited = seen;
            errs = errs.chain(more);
            i = i + 1;
        }
        Ok((visited, errs))
    }
}

} // verus!
