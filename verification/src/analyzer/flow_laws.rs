use vstd::prelude::*;

use crate::analyzer::flow::{adding_node, holds_node};
use crate::analyzer::laws::{law_uninitialized_use_reported, lemma_chain_not_empty};
use crate::analyzer::AnalyzerView;
use crate::cfg::{
    law_graph_edge, law_graph_vertex, ControlInfoView, ControlNodeView, GraphView,
};
use crate::common::{ErrorView, Span, StopView};
use crate::context::{ContextView, ValueView};
use crate::ast;
use crate::scope::{
    BlockInfoView, LoopInfoView, PayloadView, ScopeIdView, ScopeKind, ScopeView,
};
use crate::table::{entered, law_table_insert, TableView};
use crate::token::TokenView;

verus! {

/// Whether a graph has all nodes of another one at their places, and all of its edges.
pub open spec fn grown(g: GraphView, h: GraphView) -> bool {
    &&& g.nodes.len() <= h.nodes.len()
    &&& forall|i: int| 0 <= i < g.nodes.len() ==> #[trigger] h.nodes[i] == g.nodes[i]
    &&& forall|i: int, t: int| #[trigger]
        g.outgoing(i).contains(t) ==> h.outgoing(i).contains(t)
}

/// Whether two states have the same scopes, but for what is known of them.
pub open spec fn same_scopes(s: AnalyzerView, t: AnalyzerView) -> bool {
    &&& t == (AnalyzerView { scopes: t.scopes, ..s })
    &&& t.scopes.len() == s.scopes.len()
    &&& forall|i: int|
        0 <= i < s.scopes.len() ==> #[trigger] t.scopes[i] == (ScopeView {
            payload: t.scopes[i].payload,
            ..s.scopes[i]
        })
}

/// Whether a state is another one in which the control flow of the current block went on, and
/// nothing else changed.
pub open spec fn flow_on(s: AnalyzerView, t: AnalyzerView) -> bool {
    &&& same_scopes(s, t)
    &&& match s.current_block_info() {
        Ok((c, info)) => {
            &&& t.scopes[c].payload is Block
            &&& grown(info.cfg, t.scopes[c].payload->Block_0.cfg)
            &&& forall|i: int|
                0 <= i < s.scopes.len() && i != c ==> #[trigger] t.scopes[i] == s.scopes[i]
        },
        Err(_) => t == s,
    }
}

proof fn lemma_same_enclosing(s: AnalyzerView, t: AnalyzerView, id: ScopeIdView)
    requires
        same_scopes(s, t),
    ensures
        t.get_enclosing_block(id) == s.get_enclosing_block(id),
    decreases id.index,
{
    if 0 <= id.index < s.scopes.len() {
        assert(t.scopes[id.index].parent == s.scopes[id.index].parent);
        if let Some(parent) = s.scopes[id.index].parent {
            if 0 <= parent.index < id.index {
                assert(t.scopes[parent.index].kind == s.scopes[parent.index].kind);
                lemma_same_enclosing(s, t, parent);
            }
        }
    }
}

proof fn lemma_enclosing_within(s: AnalyzerView, id: ScopeIdView)
    ensures
        s.get_enclosing_block(id) matches Some(block) ==> 0 <= block.index < s.scopes.len(),
    decreases id.index,
{
    if 0 <= id.index < s.scopes.len() {
        if let Some(parent) = s.scopes[id.index].parent {
            if 0 <= parent.index < id.index {
                lemma_enclosing_within(s, parent);
            }
        }
    }
}

proof fn lemma_same_block(s: AnalyzerView, t: AnalyzerView)
    requires
        same_scopes(s, t),
        s.wf(),
    ensures
        t.get_current_block() == s.get_current_block(),
{
    reveal(AnalyzerView::wf);
    lemma_same_enclosing(s, t, s.current_id());
    assert(t.scopes[s.stack.last().index].kind == s.scopes[s.stack.last().index].kind);
}

proof fn lemma_block_kept(s: AnalyzerView, t: AnalyzerView)
    requires
        s.wf(),
        flow_on(s, t),
    ensures
        s.current_block_info() matches Ok((c, _)) ==> t.current_block_info() == Ok::<_, StopView>(
            (c, t.scopes[c].payload->Block_0),
        ),
        s.current_block_info() is Err ==> t.current_block_info() is Err,
        t.wf(),
{
    lemma_same_block(s, t);
    reveal(AnalyzerView::wf);
    assert forall|i: int, k: int|
        0 <= i < t.scopes.len() && 0 <= k < t.scopes[i].children.values.len() implies t.is_child_of(
        i,
        #[trigger] t.scopes[i].children.values[k],
    ) by {
        assert(t.scopes[i].children == s.scopes[i].children);
        let c = s.scopes[i].children.values[k];
        assert(s.is_child_of(i, s.scopes[i].children.values[k]));
        assert(t.scopes[c.index].parent == s.scopes[c.index].parent);
    }
}

proof fn lemma_flow_same(s: AnalyzerView)
    ensures
        flow_on(s, s),
{
}

proof fn lemma_flow_trans(s: AnalyzerView, t: AnalyzerView, u: AnalyzerView)
    requires
        s.wf(),
        flow_on(s, t),
        flow_on(t, u),
    ensures
        flow_on(s, u),
{
    lemma_block_kept(s, t);
    assert forall|i: int| 0 <= i < s.scopes.len() implies #[trigger] u.scopes[i] == (ScopeView {
        payload: u.scopes[i].payload,
        ..s.scopes[i]
    }) by {
        assert(t.scopes[i] == (ScopeView { payload: t.scopes[i].payload, ..s.scopes[i] }));
    }
    if let Ok((c, info)) = s.current_block_info() {
        let g = info.cfg;
        let h = t.scopes[c].payload->Block_0.cfg;
        let k = u.scopes[c].payload->Block_0.cfg;
        assert(grown(g, h) && grown(h, k));
        assert forall|i: int| 0 <= i < g.nodes.len() implies #[trigger] k.nodes[i] == g.nodes[i] by {
            assert(h.nodes[i] == g.nodes[i]);
        }
        assert forall|i: int| 0 <= i < s.scopes.len() && i != c implies #[trigger] u.scopes[i]
            == s.scopes[i] by {
            assert(t.scopes[i] == s.scopes[i]);
        }
    }
}

proof fn lemma_with_block(s: AnalyzerView, info: BlockInfoView)
    requires
        s.wf(),
        s.current_block_info() is Ok,
        grown(s.current_block_info()->Ok_0.1.cfg, info.cfg),
    ensures
        flow_on(s, s.with_block_info(s.current_block_info()->Ok_0.0, info)),
        s.with_block_info(s.current_block_info()->Ok_0.0, info).current_block_info() == Ok::<
            _,
            StopView,
        >((s.current_block_info()->Ok_0.0, info)),
        s.with_block_info(s.current_block_info()->Ok_0.0, info).wf(),
{
    let (c, before) = s.current_block_info()->Ok_0;
    let t = s.with_block_info(c, info);
    assert(flow_on(s, t));
    lemma_block_kept(s, t);
}

proof fn lemma_vertex_grown(g: GraphView, node: ControlNodeView)
    ensures
        grown(g, g.with_vertex(node)),
{
    let h = g.with_vertex(node);
    assert forall|i: int, t: int| #[trigger] g.outgoing(i).contains(t) implies h.outgoing(
        i,
    ).contains(t) by {
        assert(h.outgoing(i) == g.outgoing(i));
    }
}

proof fn lemma_edge_grown(g: GraphView, from: int, to: int)
    ensures
        grown(g, g.with_edge(from, to)),
{
    let h = g.with_edge(from, to);
    assert forall|i: int, t: int| #[trigger] g.outgoing(i).contains(t) implies h.outgoing(
        i,
    ).contains(t) by {
        let k = choose|k: int| 0 <= k < g.outgoing(i).len() && g.outgoing(i)[k] == t;
        assert(h.outgoing(i)[k] == t);
    }
}

proof fn lemma_grown_trans(g: GraphView, h: GraphView, k: GraphView)
    requires
        grown(g, h),
        grown(h, k),
    ensures
        grown(g, k),
{
    assert forall|i: int| 0 <= i < g.nodes.len() implies #[trigger] k.nodes[i] == g.nodes[i] by {
        assert(h.nodes[i] == g.nodes[i]);
    }
}

/// A node that is added to the control flow of the current block is there, after the node that was
/// the last one, and is now the last one itself. All that was there stays, and nothing else
/// changes. It cannot be added where there is no current block.
pub proof fn law_flow_inserted(s: AnalyzerView, node: ControlNodeView)
    requires
        s.wf(),
    ensures
        ({
            let (t, r) = s.flow_insert(node);
            &&& flow_on(s, t)
            &&& t.wf()
            &&& r is Ok <==> s.current_block_info() is Ok
            &&& s.current_block_info() matches Ok((c, before)) ==> {
                &&& t.current_block_info() matches Ok((place, after))
                &&& place == c
                &&& after.cf_start == before.cf_start
                &&& after.cf_end == before.cf_end
                &&& after.cf_unreachable == before.cf_unreachable
                &&& (before.cfg.wf() && 0 <= before.cf_last < before.cfg.nodes.len()) ==> {
                    &&& after.cfg.wf()
                    &&& 0 <= after.cf_last < after.cfg.nodes.len()
                    &&& after.cfg.nodes[after.cf_last] == node
                    &&& after.cfg.outgoing(before.cf_last).contains(after.cf_last)
                }
            }
        }),
{
    reveal(AnalyzerView::flow_insert);
    lemma_flow_same(s);
    if let Ok((c, before)) = s.current_block_info() {
        let place = before.cfg.place(node);
        let one = BlockInfoView { cfg: before.cfg.with_vertex(node), ..before };
        lemma_vertex_grown(before.cfg, node);
        lemma_with_block(s, one);
        let t1 = s.with_block_info(c, one);
        let two = BlockInfoView { cfg: one.cfg.with_edge(before.cf_last, place), ..one };
        lemma_edge_grown(one.cfg, before.cf_last, place);
        lemma_with_block(t1, two);
        let t2 = t1.with_block_info(c, two);
        lemma_flow_trans(s, t1, t2);
        let three = BlockInfoView { cf_last: place, ..two };
        lemma_with_block(t2, three);
        let t3 = t2.with_block_info(c, three);
        lemma_flow_trans(s, t2, t3);
        assert(s.flow_insert(node) == (t3, Ok::<(), StopView>(())));
        if before.cfg.wf() && 0 <= before.cf_last < before.cfg.nodes.len() {
            law_graph_vertex(before.cfg, node);
            law_graph_edge(one.cfg, before.cf_last, place);
        }
    }
}

proof fn lemma_traversal(
    s: AnalyzerView,
    scope_id: ScopeIdView,
    node_id: int,
    visited: Seq<int>,
    declared: TableView<ControlInfoView>,
    fuel: int,
)
    requires
        s.wf(),
    ensures
        flow_on(s, s.traverse_cfg_impl(scope_id, node_id, visited, declared, fuel).0),
        s.traverse_cfg_impl(scope_id, node_id, visited, declared, fuel).0.wf(),
    decreases fuel, 1nat, 0int,
{
    reveal(AnalyzerView::traverse_cfg_impl);
    reveal(AnalyzerView::traverse_next);
    lemma_flow_same(s);
    if fuel > 0 {
        let seen = adding_node(visited, node_id);
        let none = ErrorView::empty();
        if let Ok(node) = s.block_vertex(scope_id, node_id) {
            match node {
                ControlNodeView::Start | ControlNodeView::Junction => {
                    lemma_next(s, scope_id, node_id, false, seen, declared, none, fuel - 1);
                },
                ControlNodeView::Return | ControlNodeView::End => {
                    lemma_next(s, scope_id, node_id, true, seen, declared, none, fuel - 1);
                },
                ControlNodeView::Unreachable => {},
                ControlNodeView::Info(info) => {
                    let var = match info {
                        ControlInfoView::VarDeclared { scope_id: var } => var,
                        ControlInfoView::VarUsed { line_info: _, scope_id: var } => var,
                        ControlInfoView::VarAssigned { line_info: _, scope_id: var } => var,
                    };
                    if let Ok(path) = s.scope_path(var) {
                        law_flow_inserted(s, node);
                        let (t, _) = s.flow_insert(node);
                        let more = entered(declared, path, info);
                        lemma_next(s, scope_id, node_id, false, seen, declared, none, fuel - 1);
                        lemma_next(s, scope_id, node_id, false, seen, more, none, fuel - 1);
                        lemma_next(t, scope_id, node_id, false, seen, declared, none, fuel - 1);
                        let u = t.traverse_next(
                            scope_id,
                            node_id,
                            false,
                            seen,
                            declared,
                            none,
                            fuel - 1,
                        ).0;
                        lemma_flow_trans(s, t, u);
                        if let (Ok(name), Ok(line)) = (s.scope_name(var), s.scope_line(var)) {
                            if let ControlInfoView::VarUsed { line_info, scope_id: _ } = info {
                                let errs = ErrorView::triple(
                                    none,
                                    s.make_err("'"@ + name + "' may be uninitialized"@, line_info),
                                    s.make_note("declared here"@, line),
                                );
                                lemma_next(
                                    s,
                                    scope_id,
                                    node_id,
                                    false,
                                    seen,
                                    declared,
                                    errs,
                                    fuel - 1,
                                );
                            }
                        }
                    }
                },
            }
        }
    }
}

proof fn lemma_next(
    s: AnalyzerView,
    scope_id: ScopeIdView,
    node_id: int,
    is_end: bool,
    visited: Seq<int>,
    declared: TableView<ControlInfoView>,
    errs: ErrorView,
    fuel: int,
)
    requires
        s.wf(),
    ensures
        flow_on(
            s,
            s.traverse_next(scope_id, node_id, is_end, visited, declared, errs, fuel).0,
        ),
        s.traverse_next(scope_id, node_id, is_end, visited, declared, errs, fuel).0.wf(),
    decreases fuel, 3nat, 0int,
{
    reveal(AnalyzerView::traverse_next);
    reveal(AnalyzerView::traverse_edges);
    lemma_flow_same(s);
    if let Ok(targets) = s.block_outgoing(scope_id, node_id) {
        lemma_edges(s, scope_id, targets, is_end, declared, visited, errs, fuel, 0);
    }
}

proof fn lemma_edges(
    s: AnalyzerView,
    scope_id: ScopeIdView,
    targets: Seq<int>,
    is_end: bool,
    declared: TableView<ControlInfoView>,
    visited: Seq<int>,
    errs: ErrorView,
    fuel: int,
    i: int,
)
    requires
        s.wf(),
    ensures
        flow_on(
            s,
            s.traverse_edges(scope_id, targets, is_end, declared, visited, errs, fuel, i).0,
        ),
        s.traverse_edges(scope_id, targets, is_end, declared, visited, errs, fuel, i).0.wf(),
    decreases fuel, 2nat, targets.len() - i,
{
    reveal(AnalyzerView::traverse_edges);
    reveal(AnalyzerView::traverse_cfg_impl);
    lemma_flow_same(s);
    if 0 <= i < targets.len() && !is_end {
        if holds_node(visited, targets[i]) {
            lemma_edges(s, scope_id, targets, is_end, declared, visited, errs, fuel, i + 1);
        } else {
            lemma_traversal(s, scope_id, targets[i], visited, declared, fuel);
            let (t, r) = s.traverse_cfg_impl(scope_id, targets[i], visited, declared, fuel);
            if let Ok((seen, more)) = r {
                let all = if more.is_empty() {
                    errs
                } else {
                    errs.chain(more)
                };
                lemma_edges(t, scope_id, targets, is_end, declared, seen, all, fuel, i + 1);
                let u = t.traverse_edges(
                    scope_id,
                    targets,
                    is_end,
                    declared,
                    seen,
                    all,
                    fuel,
                    i + 1,
                ).0;
                lemma_flow_trans(s, t, u);
            }
        }
    }
}

/// The variable that a node of the control flow uses or assigns.
pub open spec fn handled_var(node: ControlNodeView) -> Option<ScopeIdView> {
    match node {
        ControlNodeView::Info(ControlInfoView::VarUsed { line_info: _, scope_id }) => Some(
            scope_id,
        ),
        ControlNodeView::Info(ControlInfoView::VarAssigned { line_info: _, scope_id }) => Some(
            scope_id,
        ),
        _ => None,
    }
}

/// What happens to a variable that a block does not declare is handed on to the block around it:
/// after the traversal the very same use or assignment, at the same place of the text, is a node
/// of the control flow of that block, right after the node that was its last one.
pub proof fn law_outer_variable_handed_on(
    s: AnalyzerView,
    scope_id: ScopeIdView,
    node_id: int,
    visited: Seq<int>,
    declared: TableView<ControlInfoView>,
    fuel: int,
    node: ControlNodeView,
    var: ScopeIdView,
)
    requires
        s.wf(),
        s.block_vertex(scope_id, node_id) == Ok::<_, StopView>(node),
        handled_var(node) == Some(var),
        s.scope_path(var) matches Ok(path) && declared.find(path) is None,
        s.traverse_cfg_impl(scope_id, node_id, visited, declared, fuel).1 is Ok,
    ensures
        ({
            let t = s.traverse_cfg_impl(scope_id, node_id, visited, declared, fuel).0;
            &&& s.current_block_info() matches Ok((c, before))
            &&& t.current_block_info() matches Ok((place, after))
            &&& place == c
            &&& grown(before.cfg, after.cfg)
            &&& (before.cfg.wf() && 0 <= before.cf_last < before.cfg.nodes.len()) ==> has_successor(
                after.cfg,
                before.cf_last,
                node,
            )
        }),
{
    reveal(AnalyzerView::traverse_cfg_impl);
    reveal(AnalyzerView::traverse_next);
    law_flow_inserted(s, node);
    let (t, r) = s.flow_insert(node);
    let seen = adding_node(visited, node_id);
    let none = ErrorView::empty();
    lemma_next(t, scope_id, node_id, false, seen, declared, none, fuel - 1);
    let u = t.traverse_next(scope_id, node_id, false, seen, declared, none, fuel - 1).0;
    assert(u == s.traverse_cfg_impl(scope_id, node_id, visited, declared, fuel).0);
    lemma_flow_trans(s, t, u);
    lemma_block_kept(s, u);
    lemma_block_kept(t, u);
    let (c, before) = s.current_block_info()->Ok_0;
    let (_, middle) = t.current_block_info()->Ok_0;
    let (_, after) = u.current_block_info()->Ok_0;
    if before.cfg.wf() && 0 <= before.cf_last < before.cfg.nodes.len() {
        let p = middle.cf_last;
        assert(after.cfg.nodes[p] == node);
        assert(after.cfg.outgoing(before.cf_last).contains(p));
    }
}

/// Whether a node comes right after the node at a place.
pub open spec fn has_successor(g: GraphView, from: int, node: ControlNodeView) -> bool {
    exists|p: int|
        0 <= p < g.nodes.len() && #[trigger] g.nodes[p] == node && g.outgoing(from).contains(p)
}

/// Whether nodes of the control flow of a block follow one another, each one being the only one
/// after the one before it, and none of them occurs twice.
pub open spec fn is_chain(g: GraphView, chain: Seq<int>) -> bool {
    &&& forall|k: int|
        0 <= k < chain.len() - 1 ==> g.outgoing(#[trigger] chain[k]) == seq![chain[k + 1]]
    &&& forall|k: int| 0 <= k < chain.len() ==> 0 <= (#[trigger] chain[k]) < g.nodes.len()
    &&& chain.no_duplicates()
}

/// Whether a node gives a value to the variable with a path.
pub open spec fn assigns(s: AnalyzerView, node: ControlNodeView, path: Seq<char>) -> bool {
    node matches ControlNodeView::Info(ControlInfoView::VarAssigned { line_info: _, scope_id })
        && s.scope_path(scope_id) == Ok::<_, StopView>(path)
}

proof fn lemma_same_paths(s: AnalyzerView, t: AnalyzerView, scope_id: ScopeIdView, var: ScopeIdView)
    requires
        flow_on(s, t),
        s.current_block_info() matches Ok((c, _)) ==> c != scope_id.index,
    ensures
        t.scope_path(var) == s.scope_path(var),
        forall|id: int| t.block_vertex(scope_id, id) == s.block_vertex(scope_id, id),
        forall|id: int| t.block_outgoing(scope_id, id) == s.block_outgoing(scope_id, id),
{
    reveal(AnalyzerView::scope_path);
    reveal(AnalyzerView::block_vertex);
    reveal(AnalyzerView::block_outgoing);
    if 0 <= var.index < s.scopes.len() {
        assert(t.scopes[var.index].id == s.scopes[var.index].id);
    }
    if 0 <= scope_id.index < s.scopes.len() {
        assert(t.scopes[scope_id.index] == s.scopes[scope_id.index]);
    }
}

/// A variable that is declared without a value on a way through a block, and used on that way
/// before anything is assigned to it, is reported. The way has no branches, and the block is not
/// the one that is current while it is looked at.
pub proof fn law_used_before_assigned(
    begin: AnalyzerView,
    s: AnalyzerView,
    scope_id: ScopeIdView,
    g: GraphView,
    chain: Seq<int>,
    d: int,
    k: int,
    path: Seq<char>,
    visited: Seq<int>,
    declared: TableView<ControlInfoView>,
    fuel: int,
)
    requires
        begin.wf(),
        flow_on(begin, s),
        0 <= scope_id.index < begin.scopes.len(),
        begin.scopes[scope_id.index].payload matches PayloadView::Block(info) && info.cfg == g,
        begin.current_block_info() matches Ok((c, _)) ==> c != scope_id.index,
        is_chain(g, chain),
        0 <= d < chain.len() - 1,
        0 <= k < chain.len(),
        g.nodes[chain[d]] matches ControlNodeView::Info(
            ControlInfoView::VarDeclared { scope_id: var },
        ) && begin.scope_path(var) == Ok::<_, StopView>(path),
        g.nodes[chain.last()] matches ControlNodeView::Info(
            ControlInfoView::VarUsed { line_info: _, scope_id: var },
        ) && begin.scope_path(var) == Ok::<_, StopView>(path),
        forall|j: int|
            d < j < chain.len() ==> !assigns(begin, g.nodes[#[trigger] chain[j]], path),
        forall|j: int| k <= j < chain.len() ==> !visited.contains(#[trigger] chain[j]),
        declared.wf(),
        k > d ==> declared.get(path) matches Some(ControlInfoView::VarDeclared { scope_id: _ }),
    ensures
        s.traverse_cfg_impl(scope_id, chain[k], visited, declared, fuel).1 matches Ok((_, reports))
            ==> !reports.is_empty(),
    decreases chain.len() - k, 0nat,
{
    reveal(AnalyzerView::traverse_cfg_impl);
    reveal(AnalyzerView::traverse_next);
    reveal(AnalyzerView::traverse_edges);
    reveal(AnalyzerView::block_vertex);
    reveal(AnalyzerView::block_outgoing);
    lemma_block_kept(begin, s);
    let node = g.nodes[chain[k]];
    lemma_same_paths(begin, s, scope_id, ScopeIdView { index: 0, sym_path: path });
    assert(s.block_vertex(scope_id, chain[k]) == Ok::<_, StopView>(node));
    let seen = adding_node(visited, chain[k]);
    let none = ErrorView::empty();
    if k == chain.len() - 1 {
        let line = node->Info_0->VarUsed_line_info;
        let var = node->Info_0->VarUsed_scope_id;
        lemma_same_paths(begin, s, scope_id, var);
        law_uninitialized_use_reported(
            s,
            scope_id,
            chain[k],
            visited,
            declared,
            fuel,
            line,
            var,
        );
    } else if fuel > 0 {
        assert(g.outgoing(chain[k]) == seq![chain[k + 1]]);
        assert forall|j: int| k + 1 <= j < chain.len() implies !seen.contains(
            #[trigger] chain[j],
        ) by {
            assert(!visited.contains(chain[j]));
            assert(chain[j] != chain[k]);
        }
        assert(s.block_outgoing(scope_id, chain[k]) == Ok::<_, StopView>(seq![chain[k + 1]]));
        match node {
            ControlNodeView::Start | ControlNodeView::Junction => {
                lemma_step(begin, s, scope_id, g, chain, d, k, path, seen, declared, none,
                    fuel - 1);
            },
            ControlNodeView::Return | ControlNodeView::End => {},
            ControlNodeView::Unreachable => {},
            ControlNodeView::Info(info) => {
                let var = match info {
                    ControlInfoView::VarDeclared { scope_id: var } => var,
                    ControlInfoView::VarUsed { line_info: _, scope_id: var } => var,
                    ControlInfoView::VarAssigned { line_info: _, scope_id: var } => var,
                };
                lemma_same_paths(begin, s, scope_id, var);
                if let Ok(other) = s.scope_path(var) {
                    let more = entered(declared, other, info);
                    law_table_insert(declared, other, info, path);
                    law_table_insert(declared, other, info, other);
                    match info {
                        ControlInfoView::VarDeclared { scope_id: _ } => {
                            lemma_step(
                                begin,
                                s,
                                scope_id,
                                g,
                                chain,
                                d,
                                k,
                                path,
                                seen,
                                more,
                                none,
                                fuel - 1,
                            );
                        },
                        ControlInfoView::VarUsed { line_info, scope_id: _ } => {
                            law_flow_inserted(s, node);
                            let (t, r) = s.flow_insert(node);
                            lemma_flow_trans(begin, s, t);
                            lemma_step(
                                begin,
                                t,
                                scope_id,
                                g,
                                chain,
                                d,
                                k,
                                path,
                                seen,
                                declared,
                                none,
                                fuel - 1,
                            );
                            lemma_step(
                                begin,
                                s,
                                scope_id,
                                g,
                                chain,
                                d,
                                k,
                                path,
                                seen,
                                declared,
                                none,
                                fuel - 1,
                            );
                            if let (Ok(name), Ok(place)) = (s.scope_name(var), s.scope_line(var)) {
                                let errs = ErrorView::triple(
                                    none,
                                    s.make_err("'"@ + name + "' may be uninitialized"@, line_info),
                                    s.make_note("declared here"@, place),
                                );
                                lemma_step(
                                    begin,
                                    s,
                                    scope_id,
                                    g,
                                    chain,
                                    d,
                                    k,
                                    path,
                                    seen,
                                    declared,
                                    errs,
                                    fuel - 1,
                                );
                            }
                        },
                        ControlInfoView::VarAssigned { line_info: _, scope_id: _ } => {
                            if k > d {
                                assert(!assigns(begin, g.nodes[chain[k]], path));
                            }
                            law_flow_inserted(s, node);
                            let (t, r) = s.flow_insert(node);
                            lemma_flow_trans(begin, s, t);
                            lemma_step(
                                begin,
                                t,
                                scope_id,
                                g,
                                chain,
                                d,
                                k,
                                path,
                                seen,
                                declared,
                                none,
                                fuel - 1,
                            );
                            lemma_step(
                                begin,
                                s,
                                scope_id,
                                g,
                                chain,
                                d,
                                k,
                                path,
                                seen,
                                more,
                                none,
                                fuel - 1,
                            );
                        },
                    }
                }
            },
        }
    }
}

proof fn lemma_step(
    begin: AnalyzerView,
    s: AnalyzerView,
    scope_id: ScopeIdView,
    g: GraphView,
    chain: Seq<int>,
    d: int,
    k: int,
    path: Seq<char>,
    seen: Seq<int>,
    declared: TableView<ControlInfoView>,
    errs: ErrorView,
    fuel: int,
)
    requires
        begin.wf(),
        flow_on(begin, s),
        0 <= scope_id.index < begin.scopes.len(),
        begin.scopes[scope_id.index].payload matches PayloadView::Block(info) && info.cfg == g,
        begin.current_block_info() matches Ok((c, _)) ==> c != scope_id.index,
        is_chain(g, chain),
        0 <= d < chain.len() - 1,
        0 <= k < chain.len() - 1,
        g.nodes[chain[d]] matches ControlNodeView::Info(
            ControlInfoView::VarDeclared { scope_id: var },
        ) && begin.scope_path(var) == Ok::<_, StopView>(path),
        g.nodes[chain.last()] matches ControlNodeView::Info(
            ControlInfoView::VarUsed { line_info: _, scope_id: var },
        ) && begin.scope_path(var) == Ok::<_, StopView>(path),
        forall|j: int|
            d < j < chain.len() ==> !assigns(begin, g.nodes[#[trigger] chain[j]], path),
        forall|j: int| k + 1 <= j < chain.len() ==> !seen.contains(#[trigger] chain[j]),
        declared.wf(),
        k + 1 > d ==> declared.get(path) matches Some(ControlInfoView::VarDeclared { scope_id: _ }),
    ensures
        s.traverse_next(scope_id, chain[k], false, seen, declared, errs, fuel).1 matches Ok(
            (_, reports),
        ) ==> !reports.is_empty(),
    decreases chain.len() - (k + 1), 1nat,
{
    reveal(AnalyzerView::traverse_next);
    reveal(AnalyzerView::traverse_edges);
    reveal(AnalyzerView::traverse_cfg_impl);
    reveal(AnalyzerView::block_outgoing);
    lemma_same_paths(begin, s, scope_id, ScopeIdView { index: 0, sym_path: path });
    let targets = seq![chain[k + 1]];
    assert(g.outgoing(chain[k]) == targets);
    assert(begin.block_outgoing(scope_id, chain[k]) == Ok::<_, StopView>(targets));
    assert(s.block_outgoing(scope_id, chain[k]) == Ok::<_, StopView>(targets));
    assert(!seen.contains(chain[k + 1]));
    law_used_before_assigned(
        begin,
        s,
        scope_id,
        g,
        chain,
        d,
        k + 1,
        path,
        seen,
        declared,
        fuel,
    );
    let (t, r) = s.traverse_cfg_impl(scope_id, chain[k + 1], seen, declared, fuel);
    if let Ok((after, more)) = r {
        lemma_chain_not_empty(errs, more);
        assert(t.traverse_edges(
            scope_id,
            targets,
            false,
            declared,
            after,
            errs.chain(more),
            fuel,
            1,
        ) == (t, Ok::<_, StopView>((after, errs.chain(more)))));
    }
}

/// To use or to assign a local variable is recorded in the control flow of the current block, as
/// its next node: with the variable, and with the place of the expression. Other expressions are
/// not recorded.
pub proof fn law_use_recorded(
    s: AnalyzerView,
    ctx: ContextView,
    expr: ast::ExprView,
    assigned: bool,
    line: Span,
)
    requires
        s.wf(),
        expr.line() == Ok::<_, StopView>(line),
        s.record_use(ctx, expr, assigned).1 is Ok,
    ensures
        ({
            let t = s.record_use(ctx, expr, assigned).0;
            if ctx.value matches ValueView::GetLocal { line_info: _, scope_id: var } && 0
                <= var.index < s.scopes.len() && (s.scopes[var.index].kind == ScopeKind::Variable
                || s.scopes[var.index].kind == ScopeKind::Const) {
                let var = ctx.value->GetLocal_scope_id;
                let node = ControlNodeView::Info(
                    if assigned {
                        ControlInfoView::VarAssigned { line_info: line, scope_id: var }
                    } else {
                        ControlInfoView::VarUsed { line_info: line, scope_id: var }
                    },
                );
                &&& s.current_block_info() matches Ok((_, before))
                &&& t.current_block_info() matches Ok((_, after))
                &&& (before.cfg.wf() && 0 <= before.cf_last < before.cfg.nodes.len()) ==> {
                    &&& after.cfg.nodes[after.cf_last] == node
                    &&& after.cfg.outgoing(before.cf_last).contains(after.cf_last)
                }
            } else {
                t == s
            }
        }),
{
    reveal(AnalyzerView::record_use);
    if let ValueView::GetLocal { line_info: _, scope_id: var } = ctx.value {
        law_flow_inserted(
            s,
            ControlNodeView::Info(ControlInfoView::VarAssigned { line_info: line, scope_id: var }),
        );
        law_flow_inserted(
            s,
            ControlNodeView::Info(ControlInfoView::VarUsed { line_info: line, scope_id: var }),
        );
    }
}

/// Whether the control flow of the current block is consistent.
pub open spec fn flow_wf(s: AnalyzerView) -> bool {
    &&& s.wf()
    &&& s.current_block_info() matches Ok((_, info))
    &&& info.cfg.wf()
    &&& 0 <= info.cf_last < info.cfg.nodes.len()
}

/// Whether control can go from a node of the current block to another one at once.
pub open spec fn goes_to(s: AnalyzerView, from: int, to: int) -> bool {
    s.current_block_info() matches Ok((_, info)) && info.cfg.outgoing(from).contains(to)
}

/// The node that the control flow of the current block goes on from.
pub open spec fn last_of(s: AnalyzerView) -> int {
    s.current_block_info()->Ok_0.1.cf_last
}

proof fn lemma_vertex_added(s: AnalyzerView, node: ControlNodeView)
    requires
        flow_wf(s),
    ensures
        ({
            let (t, r) = s.flow_vertex(node);
            &&& r matches Ok(place)
            &&& flow_on(s, t)
            &&& flow_wf(t)
            &&& last_of(t) == last_of(s)
            &&& t.current_block_info()->Ok_0.0 == s.current_block_info()->Ok_0.0
            &&& t.current_block_info()->Ok_0.1.cf_unreachable
                == s.current_block_info()->Ok_0.1.cf_unreachable
            &&& 0 <= place < t.current_block_info()->Ok_0.1.cfg.nodes.len()
            &&& t.current_block_info()->Ok_0.1.cfg.nodes[place] == node
        }),
{
    let (c, before) = s.current_block_info()->Ok_0;
    lemma_vertex_grown(before.cfg, node);
    lemma_with_block(s, BlockInfoView { cfg: before.cfg.with_vertex(node), ..before });
    law_graph_vertex(before.cfg, node);
}

proof fn lemma_edge_added(s: AnalyzerView, from: int, to: int)
    requires
        flow_wf(s),
        0 <= from < s.current_block_info()->Ok_0.1.cfg.nodes.len(),
        0 <= to < s.current_block_info()->Ok_0.1.cfg.nodes.len(),
    ensures
        ({
            let (t, r) = s.flow_edge(from, to);
            &&& r is Ok
            &&& flow_on(s, t)
            &&& flow_wf(t)
            &&& last_of(t) == last_of(s)
            &&& t.current_block_info()->Ok_0.0 == s.current_block_info()->Ok_0.0
            &&& t.current_block_info()->Ok_0.1.cf_unreachable
                == s.current_block_info()->Ok_0.1.cf_unreachable
            &&& t.current_block_info()->Ok_0.1.cfg.nodes
                == s.current_block_info()->Ok_0.1.cfg.nodes
            &&& goes_to(t, from, to)
            &&& forall|i: int, k: int| #[trigger] goes_to(s, i, k) ==> goes_to(t, i, k)
        }),
{
    let (c, before) = s.current_block_info()->Ok_0;
    lemma_edge_grown(before.cfg, from, to);
    lemma_with_block(s, BlockInfoView { cfg: before.cfg.with_edge(from, to), ..before });
    law_graph_edge(before.cfg, from, to);
}

proof fn lemma_last_set(s: AnalyzerView, node: int)
    requires
        flow_wf(s),
        0 <= node < s.current_block_info()->Ok_0.1.cfg.nodes.len(),
    ensures
        ({
            let (t, r) = s.flow_set_last(node);
            &&& r is Ok
            &&& flow_on(s, t)
            &&& flow_wf(t)
            &&& last_of(t) == node
            &&& t.current_block_info()->Ok_0.0 == s.current_block_info()->Ok_0.0
            &&& t.current_block_info()->Ok_0.1.cfg == s.current_block_info()->Ok_0.1.cfg
            &&& forall|i: int, k: int| #[trigger] goes_to(s, i, k) ==> goes_to(t, i, k)
        }),
{
    let (c, before) = s.current_block_info()->Ok_0;
    lemma_with_block(s, BlockInfoView { cf_last: node, ..before });
}

/// Whether a loop is the one that a jump belongs to: the one with its label among the loops of
/// the current function, or the innermost one.
pub open spec fn is_loop_of(
    s: AnalyzerView,
    label: Option<TokenView>,
    target: LoopInfoView,
) -> bool {
    &&& s.get_current_function() matches Some(id)
    &&& 0 <= id.index < s.scopes.len()
    &&& s.scopes[id.index].payload matches PayloadView::Function(info)
    &&& match label {
        Some(name) => info.loop_stack.find(name.text) == Some(target),
        None => info.loop_stack.values.len() > 0 && info.loop_stack.values.last() == target,
    }
}

/// Leaving a loop goes to where the loop ends, and going on with it to where it begins. What comes
/// next is not reached from there.
#[verifier::spinoff_prover]
pub proof fn law_jump_flow(
    s: AnalyzerView,
    token: TokenView,
    label: Option<TokenView>,
    target: LoopInfoView,
)
    requires
        flow_wf(s),
        is_loop_of(s, label, target),
        0 <= target.cf_break < s.current_block_info()->Ok_0.1.cfg.nodes.len(),
        0 <= target.cf_continue < s.current_block_info()->Ok_0.1.cfg.nodes.len(),
        0 <= s.current_block_info()->Ok_0.1.cf_unreachable
            < s.current_block_info()->Ok_0.1.cfg.nodes.len(),
    ensures
        s.visit_break(token, label).1 == Ok::<_, StopView>(ContextView::from_noreturn()),
        goes_to(s.visit_break(token, label).0, last_of(s), target.cf_break),
        last_of(s.visit_break(token, label).0) == s.current_block_info()->Ok_0.1.cf_unreachable,
        s.visit_continue(token, label).1 == Ok::<_, StopView>(ContextView::from_noreturn()),
        goes_to(s.visit_continue(token, label).0, last_of(s), target.cf_continue),
        last_of(s.visit_continue(token, label).0) == s.current_block_info()->Ok_0.1.cf_unreachable,
{
    reveal(AnalyzerView::visit_break);
    reveal(AnalyzerView::visit_continue);
    reveal(AnalyzerView::visit_jump);
    reveal(AnalyzerView::jump_loop);
    reveal(AnalyzerView::flow_cut);
    lemma_edge_added(s, last_of(s), target.cf_break);
    lemma_edge_added(s, last_of(s), target.cf_continue);
    let nowhere = s.current_block_info()->Ok_0.1.cf_unreachable;
    lemma_last_set(s.flow_edge(last_of(s), target.cf_break).0, nowhere);
    lemma_last_set(s.flow_edge(last_of(s), target.cf_continue).0, nowhere);
}

/// A return is reached from what comes before it, and what comes next is not reached from there.
#[verifier::spinoff_prover]
pub proof fn law_return_flow(s: AnalyzerView)
    requires
        flow_wf(s),
        0 <= s.current_block_info()->Ok_0.1.cf_unreachable
            < s.current_block_info()->Ok_0.1.cfg.nodes.len(),
    ensures
        ({
            let (t, r) = s.flow_return();
            &&& r is Ok
            &&& last_of(t) == s.current_block_info()->Ok_0.1.cf_unreachable
            &&& exists|node: int| #[trigger]
                goes_to(t, last_of(s), node) && 0 <= node
                    < t.current_block_info()->Ok_0.1.cfg.nodes.len()
                    && t.current_block_info()->Ok_0.1.cfg.nodes[node] == ControlNodeView::Return
        }),
{
    reveal(AnalyzerView::flow_return);
    reveal(AnalyzerView::flow_cut);
    lemma_vertex_added(s, ControlNodeView::Return);
    let (s1, r) = s.flow_vertex(ControlNodeView::Return);
    let node = r->Ok_0;
    lemma_edge_added(s1, last_of(s), node);
    let (s2, _) = s1.flow_edge(last_of(s), node);
    let nowhere = s.current_block_info()->Ok_0.1.cf_unreachable;
    lemma_last_set(s2, nowhere);
    assert(goes_to(s.flow_return().0, last_of(s), node));
}

/// Two ways that meet are both followed by the node from which the control flow goes on.
#[verifier::spinoff_prover]
pub proof fn law_flow_joined(s: AnalyzerView, first: int, second: int)
    requires
        flow_wf(s),
        0 <= first < s.current_block_info()->Ok_0.1.cfg.nodes.len(),
        0 <= second < s.current_block_info()->Ok_0.1.cfg.nodes.len(),
    ensures
        ({
            let (t, r) = s.flow_join(first, second);
            &&& r is Ok
            &&& flow_wf(t)
            &&& goes_to(t, first, last_of(t))
            &&& goes_to(t, second, last_of(t))
            &&& t.current_block_info()->Ok_0.1.cfg.nodes[last_of(t)] == ControlNodeView::Junction
        }),
{
    reveal(AnalyzerView::flow_join);
    lemma_vertex_added(s, ControlNodeView::Junction);
    let (s1, r) = s.flow_vertex(ControlNodeView::Junction);
    let node = r->Ok_0;
    lemma_edge_added(s1, first, node);
    let (s2, _) = s1.flow_edge(first, node);
    lemma_edge_added(s2, second, node);
    let (s3, _) = s2.flow_edge(second, node);
    assert(goes_to(s2, first, node));
    assert(goes_to(s3, first, node));
    lemma_last_set(s3, node);
    assert(goes_to(s.flow_join(first, second).0, first, node));
    assert(goes_to(s.flow_join(first, second).0, second, node));
}

/// After a condition without an alternative, control comes from the end of its body or from the
/// condition itself. After one with an alternative, it comes from the end of either body, and both
/// bodies begin after the condition.
#[verifier::spinoff_prover]
pub proof fn law_condition_flow(
    s: AnalyzerView,
    expr: ast::ExprView,
    then_body: ast::StmtView,
    else_body: ast::StmtView,
    line: Span,
    fuel: int,
)
    requires
        s.visit_condition(expr, fuel).1 is Ok,
    ensures
        ({
            let s1 = s.visit_condition(expr, fuel).0;
            let s2 = s1.visit_stmt(then_body, fuel).0;
            let (t, r) = s.visit_if_stmt(expr, then_body, line, fuel);
            r is Ok && flow_wf(s2) && 0 <= last_of(s1)
                < s2.current_block_info()->Ok_0.1.cfg.nodes.len() ==> {
                &&& goes_to(t, last_of(s2), last_of(t))
                &&& goes_to(t, last_of(s1), last_of(t))
            }
        }),
        ({
            let s1 = s.visit_condition(expr, fuel).0;
            let s2 = s1.visit_stmt(then_body, fuel).0;
            let s3 = s2.flow_set_last(last_of(s1)).0;
            let s4 = s3.visit_stmt(else_body, fuel).0;
            let (t, r) = s.visit_if_else_stmt(expr, then_body, else_body, line, fuel);
            r is Ok && flow_wf(s4) && 0 <= last_of(s2)
                < s4.current_block_info()->Ok_0.1.cfg.nodes.len() ==> {
                &&& goes_to(t, last_of(s2), last_of(t))
                &&& goes_to(t, last_of(s4), last_of(t))
            }
        }),
{
    reveal(AnalyzerView::visit_if_stmt);
    reveal(AnalyzerView::visit_if_else_stmt);
    reveal(AnalyzerView::visit_condition);
    reveal(AnalyzerView::visit_stmt);
    let s1 = s.visit_condition(expr, fuel).0;
    let s2 = s1.visit_stmt(then_body, fuel).0;
    let s3 = s2.flow_set_last(last_of(s1)).0;
    let s4 = s3.visit_stmt(else_body, fuel).0;
    if flow_wf(s2) && 0 <= last_of(s1) < s2.current_block_info()->Ok_0.1.cfg.nodes.len() {
        law_flow_joined(s2, last_of(s2), last_of(s1));
    }
    if flow_wf(s4) && 0 <= last_of(s2) < s4.current_block_info()->Ok_0.1.cfg.nodes.len() {
        law_flow_joined(s4, last_of(s2), last_of(s4));
    }
}

/// A loop is reached from what comes before it. Its body goes back to where it begins, its
/// condition leads to where it ends, and the control flow goes on from there.
#[verifier::spinoff_prover]
pub proof fn law_loop_flow(
    s: AnalyzerView,
    label: Option<TokenView>,
    expr: ast::ExprView,
    body: ast::StmtView,
    line: Span,
    fuel: int,
)
    requires
        flow_wf(s),
    ensures
        ({
            let (s1, first) = s.flow_vertex(ControlNodeView::Junction);
            let (s2, second) = s1.flow_vertex(ControlNodeView::Junction);
            let (end, begin) = (first->Ok_0, second->Ok_0);
            let s3 = s2.flow_edge(last_of(s2), begin).0;
            let s4 = s3.flow_set_last(begin).0;
            let s5 = s4.visit_condition(expr, fuel).0;
            let (s6, name) = s5.loop_name(label);
            let s7 = s6.push_loop(
                name->Ok_0,
                LoopInfoView { cf_break: end, cf_continue: begin },
            ).0;
            let s8 = s7.visit_stmt(body, fuel).0;
            let (t, r) = s.visit_while_stmt(label, expr, body, line, fuel);
            let count = s8.current_block_info()->Ok_0.1.cfg.nodes.len();
            &&& goes_to(s4, last_of(s), begin)
            &&& last_of(s4) == begin
            &&& (r is Ok && flow_wf(s8) && 0 <= last_of(s5) < count && 0 <= begin < count && 0
                <= end < count) ==> {
                &&& goes_to(t, last_of(s8), begin)
                &&& goes_to(t, last_of(s5), end)
                &&& last_of(t) == end
            }
        }),
{
    reveal(AnalyzerView::visit_while_stmt);
    reveal(AnalyzerView::visit_condition);
    reveal(AnalyzerView::visit_stmt);
    let (s1, first) = s.flow_vertex(ControlNodeView::Junction);
    lemma_vertex_added(s, ControlNodeView::Junction);
    let (s2, second) = s1.flow_vertex(ControlNodeView::Junction);
    lemma_vertex_added(s1, ControlNodeView::Junction);
    let (end, begin) = (first->Ok_0, second->Ok_0);
    lemma_edge_added(s2, last_of(s2), begin);
    let s3 = s2.flow_edge(last_of(s2), begin).0;
    lemma_last_set(s3, begin);
    let s4 = s3.flow_set_last(begin).0;
    assert(goes_to(s3, last_of(s), begin));
    let s5 = s4.visit_condition(expr, fuel).0;
    let (s6, name) = s5.loop_name(label);
    let s7 = s6.push_loop(name->Ok_0, LoopInfoView { cf_break: end, cf_continue: begin }).0;
    let s8 = s7.visit_stmt(body, fuel).0;
    let (t, r) = s.visit_while_stmt(label, expr, body, line, fuel);
    let count = s8.current_block_info()->Ok_0.1.cfg.nodes.len();
    if r is Ok && flow_wf(s8) && 0 <= last_of(s5) < count && 0 <= begin < count && 0 <= end
        < count {
        reveal(AnalyzerView::loop_name);
        lemma_edge_added(s8, last_of(s8), begin);
        let s9 = s8.flow_edge(last_of(s8), begin).0;
        lemma_edge_added(s9, last_of(s5), end);
        let s10 = s9.flow_edge(last_of(s5), end).0;
        assert(goes_to(s9, last_of(s8), begin));
        lemma_last_set(s10, end);
        let s11 = s10.flow_set_last(end).0;
        assert(goes_to(s10, last_of(s8), begin));
        assert(goes_to(s10, last_of(s5), end));
        assert(s5.flow_last() == Ok::<_, StopView>(last_of(s5)));
        let u = s11.pop_loop().0;
        lemma_pop_keeps(s11);
        assert(t == u);
    }
}

proof fn lemma_pop_keeps(s: AnalyzerView)
    requires
        flow_wf(s),
    ensures
        s.pop_loop().0.current_block_info() == s.current_block_info(),
{
    let t = s.pop_loop().0;
    assert(same_scopes(s, t));
    lemma_same_block(s, t);
}

} // verus!
