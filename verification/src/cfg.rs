use indexmap::IndexSet;
use vstd::prelude::*;

use crate::common::{LineInfo, Span};
use crate::scope::{ScopeId, ScopeIdView};

verus! {

/// What happens to a variable.
#[derive(Debug)]
pub enum ControlInfo {
    VarDeclared { scope_id: ScopeId },
    VarUsed { line_info: LineInfo, scope_id: ScopeId },
    VarAssigned { line_info: LineInfo, scope_id: ScopeId },
}

/// A node of a control graph.
#[derive(Debug)]
pub enum ControlNode {
    /// Start node of a control graph
    Start,
    /// A node where multiple nodes meet
    Junction,
    /// A node where some operation occurs
    Info(ControlInfo),
    /// A special node that indicates return from a function
    Return,
    /// End node of a control graph
    End,
    /// Any outgoing node from this node is never executed
    Unreachable,
}

/// The identity of a node: its place in the graph.
#[derive(Clone, Copy, Debug, PartialEq, Eq, Structural)]
pub struct ControlNodeId(pub usize);

impl View for ControlNodeId {
    type V = int;

    open spec fn view(&self) -> int {
        self.0 as int
    }
}

/// The model of what happens to a variable.
pub enum ControlInfoView {
    VarDeclared { scope_id: ScopeIdView },
    VarUsed { line_info: Span, scope_id: ScopeIdView },
    VarAssigned { line_info: Span, scope_id: ScopeIdView },
}

/// The model of a node of a control graph.
pub enum ControlNodeView {
    Start,
    Junction,
    Info(ControlInfoView),
    Return,
    End,
    Unreachable,
}

impl View for ControlInfo {
    type V = ControlInfoView;

    open spec fn view(&self) -> ControlInfoView {
        match *self {
            ControlInfo::VarDeclared { scope_id } => ControlInfoView::VarDeclared {
                scope_id: scope_id@,
            },
            ControlInfo::VarUsed { line_info, scope_id } => ControlInfoView::VarUsed {
                line_info: line_info@,
                scope_id: scope_id@,
            },
            ControlInfo::VarAssigned { line_info, scope_id } => ControlInfoView::VarAssigned {
                line_info: line_info@,
                scope_id: scope_id@,
            },
        }
    }
}

impl View for ControlNode {
    type V = ControlNodeView;

    open spec fn view(&self) -> ControlNodeView {
        match *self {
            ControlNode::Start => ControlNodeView::Start,
            ControlNode::Junction => ControlNodeView::Junction,
            ControlNode::Info(info) => ControlNodeView::Info(info@),
            ControlNode::Return => ControlNodeView::Return,
            ControlNode::End => ControlNodeView::End,
            ControlNode::Unreachable => ControlNodeView::Unreachable,
        }
    }
}

impl ControlInfo {
    /// A copy.
    pub fn copy(&self) -> (r: Self)
        ensures
            r@ == self@,
    {
        match self {
            ControlInfo::VarDeclared { scope_id } => ControlInfo::VarDeclared {
                scope_id: scope_id.copy(),
            },
            ControlInfo::VarUsed { line_info, scope_id } => ControlInfo::VarUsed {
                line_info: *line_info,
                scope_id: scope_id.copy(),
            },
            ControlInfo::VarAssigned { line_info, scope_id } => ControlInfo::VarAssigned {
                line_info: *line_info,
                scope_id: scope_id.copy(),
            },
        }
    }
}

impl ControlNode {
    /// A copy.
    pub fn copy(&self) -> (r: Self)
        ensures
            r@ == self@,
    {
        match self {
            ControlNode::Start => ControlNode::Start,
            ControlNode::Junction => ControlNode::Junction,
            ControlNode::Info(info) => ControlNode::Info(info.copy()),
            ControlNode::Return => ControlNode::Return,
            ControlNode::End => ControlNode::End,
            ControlNode::Unreachable => ControlNode::Unreachable,
        }
    }
}

/// What tells the nodes of a graph apart: the kind of the node, and of a node where something
/// happens to a variable, the region where it does and the place and the path of the variable.
pub type NodeKey = (u8, usize, usize, usize, usize, usize, String);

/// The model of a key: the kind of the node, the region, and the place and the path of the
/// variable.
pub type KeyView = (int, Span, int, Seq<char>);

/// The key of a node.
pub open spec fn node_key(node: ControlNodeView) -> KeyView {
    match node {
        ControlNodeView::Start => (0, no_span(), 0, seq![]),
        ControlNodeView::Junction => (1, no_span(), 0, seq![]),
        ControlNodeView::Return => (2, no_span(), 0, seq![]),
        ControlNodeView::End => (3, no_span(), 0, seq![]),
        ControlNodeView::Unreachable => (4, no_span(), 0, seq![]),
        ControlNodeView::Info(ControlInfoView::VarDeclared { scope_id }) => (
            5,
            no_span(),
            scope_id.index,
            scope_id.sym_path,
        ),
        ControlNodeView::Info(ControlInfoView::VarUsed { line_info, scope_id }) => (
            6,
            line_info,
            scope_id.index,
            scope_id.sym_path,
        ),
        ControlNodeView::Info(ControlInfoView::VarAssigned { line_info, scope_id }) => (
            7,
            line_info,
            scope_id.index,
            scope_id.sym_path,
        ),
    }
}

/// The region that stands for none.
pub open spec fn no_span() -> Span {
    Span { line_start: 0, line_end: 0, col_start: 0, col_end: 0 }
}

/// The model of a key.
pub open spec fn key_model(key: NodeKey) -> KeyView {
    (
        key.0 as int,
        Span {
            line_start: key.1 as int,
            line_end: key.2 as int,
            col_start: key.3 as int,
            col_end: key.4 as int,
        },
        key.5 as int,
        key.6@,
    )
}

/// The keys that a set holds, as their models, in the order of their insertion.
pub uninterp spec fn set_keys(set: IndexSet<NodeKey>) -> Seq<KeyView>;

/// Whether an item stands first at a position.
pub open spec fn is_first<T>(items: Seq<T>, item: T, i: int) -> bool {
    &&& 0 <= i < items.len()
    &&& items[i] == item
    &&& forall|k: int| 0 <= k < i ==> #[trigger] items[k] != item
}

/// `IndexSet::new` makes an empty set.
#[verifier::external_body]
fn keys_new() -> (set: IndexSet<NodeKey>)
    ensures
        set_keys(set) == Seq::<KeyView>::empty(),
{
    IndexSet::new()
}

/// `IndexSet::insert_full` puts a key at the end of the set, unless it is already there. It
/// returns the position of the key and whether it was put there now.
#[verifier::external_body]
fn keys_insert(set: &mut IndexSet<NodeKey>, key: NodeKey) -> (r: (usize, bool))
    ensures
        r.1 == !set_keys(*old(set)).contains(key_model(key)),
        set_keys(*final(set)) == (if r.1 {
            set_keys(*old(set)).push(key_model(key))
        } else {
            set_keys(*old(set))
        }),
        is_first(set_keys(*final(set)), key_model(key), r.0 as int),
{
    set.insert_full(key)
}

/// `IndexSet::clone` makes a set with the same keys in the same order.
#[verifier::external_body]
fn keys_clone(set: &IndexSet<NodeKey>) -> (r: IndexSet<NodeKey>)
    ensures
        set_keys(r) == set_keys(*set),
{
    set.clone()
}

/// A graph of what may happen after what. Nothing is ever taken out of it.
pub struct ControlGraph {
    pub keys: IndexSet<NodeKey>,
    pub nodes: Vec<ControlNode>,
    pub edges: Vec<Vec<ControlNodeId>>,
}

/// The model of a control graph: its nodes, their keys, and for each node where it leads.
#[verifier::ext_equal]
pub struct GraphView {
    pub keys: Seq<KeyView>,
    pub nodes: Seq<ControlNodeView>,
    pub edges: Seq<Seq<int>>,
}

/// The models of several nodes.
pub open spec fn node_models(nodes: Seq<ControlNode>) -> Seq<ControlNodeView> {
    Seq::new(nodes.len(), |i: int| nodes[i]@)
}

/// The models of several identities.
pub open spec fn id_models(ids: Seq<ControlNodeId>) -> Seq<int> {
    Seq::new(ids.len(), |i: int| ids[i]@)
}

/// The models of the edges.
pub open spec fn edge_models(edges: Seq<Vec<ControlNodeId>>) -> Seq<Seq<int>> {
    Seq::new(edges.len(), |i: int| id_models(edges[i]@))
}

impl View for ControlGraph {
    type V = GraphView;

    open spec fn view(&self) -> GraphView {
        GraphView {
            keys: set_keys(self.keys),
            nodes: node_models(self.nodes@),
            edges: edge_models(self.edges@),
        }
    }
}

impl GraphView {
    /// The graph without nodes.
    pub open spec fn new() -> GraphView {
        GraphView { keys: seq![], nodes: seq![], edges: seq![] }
    }

    /// Whether each node has its key and its edges, no two nodes have the same key, and edges
    /// lead to nodes of the graph.
    pub open spec fn wf(self) -> bool {
        &&& self.keys.len() == self.nodes.len()
        &&& self.edges.len() == self.nodes.len()
        &&& forall|i: int| 0 <= i < self.nodes.len() ==> #[trigger] self.keys[i] == node_key(
            self.nodes[i],
        )
        &&& self.keys.no_duplicates()
        &&& forall|i: int, k: int|
            0 <= i < self.edges.len() && 0 <= k < self.edges[i].len() ==> 0
                <= #[trigger] self.edges[i][k] < self.nodes.len()
    }

    /// The place of a node in the graph, which is the next one if it is not there.
    pub open spec fn place(self, node: ControlNodeView) -> int {
        if self.keys.contains(node_key(node)) {
            choose|i: int| is_first(self.keys, node_key(node), i)
        } else {
            self.keys.len() as int
        }
    }

    /// The graph with the node.
    pub open spec fn with_vertex(self, node: ControlNodeView) -> GraphView {
        if self.keys.contains(node_key(node)) {
            self
        } else {
            GraphView {
                keys: self.keys.push(node_key(node)),
                nodes: self.nodes.push(node),
                edges: self.edges.push(seq![]),
            }
        }
    }

    /// The graph with an edge between two nodes.
    pub open spec fn with_edge(self, from: int, to: int) -> GraphView {
        if 0 <= from < self.edges.len() && !self.edges[from].contains(to) {
            GraphView { edges: self.edges.update(from, self.edges[from].push(to)), ..self }
        } else {
            self
        }
    }

    /// Where a node leads.
    pub open spec fn outgoing(self, node_id: int) -> Seq<int> {
        if 0 <= node_id < self.edges.len() {
            self.edges[node_id]
        } else {
            seq![]
        }
    }

    /// The node at a place.
    pub open spec fn get_vertex(self, node_id: int) -> Option<ControlNodeView> {
        if 0 <= node_id < self.nodes.len() {
            Some(self.nodes[node_id])
        } else {
            None
        }
    }
}

/// Nodes with the same key are the same.
pub proof fn law_node_key(a: ControlNodeView, b: ControlNodeView)
    requires
        node_key(a) == node_key(b),
    ensures
        a == b,
{
}

/// A graph stays consistent when a node is added. The node is then found at its place, all
/// earlier nodes and edges stay where they were, and adding it again changes nothing.
pub proof fn law_graph_vertex(g: GraphView, node: ControlNodeView)
    requires
        g.wf(),
    ensures
        g.with_vertex(node).wf(),
        0 <= g.place(node) < g.with_vertex(node).nodes.len(),
        g.with_vertex(node).nodes[g.place(node)] == node,
        forall|i: int| 0 <= i < g.nodes.len() ==> #[trigger] g.with_vertex(node).nodes[i]
            == g.nodes[i] && g.with_vertex(node).edges[i] == g.edges[i],
        g.with_vertex(node).with_vertex(node) == g.with_vertex(node),
        g.with_vertex(node).place(node) == g.place(node),
{
    let h = g.with_vertex(node);
    let key = node_key(node);
    if g.keys.contains(key) {
        let i = g.keys.index_of(key);
        assert(is_first(g.keys, key, i));
        let j = g.place(node);
        assert(is_first(g.keys, key, j));
        assert(g.keys[j] == node_key(g.nodes[j]));
        law_node_key(g.nodes[j], node);
    } else {
        let n = g.keys.len() as int;
        assert(h.keys[n] == key);
        assert forall|x: int, y: int|
            0 <= x < h.keys.len() && 0 <= y < h.keys.len() && x != y implies h.keys[x]
            != h.keys[y] by {
            if x == n {
                assert(h.keys[y] == g.keys[y]);
            } else if y == n {
                assert(h.keys[x] == g.keys[x]);
            }
        }
        assert forall|i: int| 0 <= i < h.nodes.len() implies #[trigger] h.keys[i] == node_key(
            h.nodes[i],
        ) by {
            if i < n {
                assert(g.keys[i] == node_key(g.nodes[i]));
            }
        }
        assert forall|i: int, k: int|
            0 <= i < h.edges.len() && 0 <= k < h.edges[i].len() implies 0
            <= #[trigger] h.edges[i][k] < h.nodes.len() by {
            assert(h.edges[i] == g.edges[i]);
            assert(g.edges[i][k] < g.nodes.len());
        }
        assert(h.keys.contains(key));
        assert(is_first(h.keys, key, n));
        let j = h.place(node);
        assert(is_first(h.keys, key, j));
    }
}

/// An edge that was added between nodes of the graph is there, each edge once, and what was there
/// stays.
pub proof fn law_graph_edge(g: GraphView, from: int, to: int)
    requires
        g.wf(),
        0 <= from < g.nodes.len(),
        0 <= to < g.nodes.len(),
    ensures
        g.with_edge(from, to).wf(),
        g.with_edge(from, to).nodes == g.nodes,
        g.with_edge(from, to).outgoing(from).contains(to),
        forall|i: int, t: int|
            #[trigger] g.outgoing(i).contains(t) ==> g.with_edge(from, to).outgoing(i).contains(t),
        g.with_edge(from, to).with_edge(from, to) == g.with_edge(from, to),
        g.outgoing(from).no_duplicates() ==> g.with_edge(from, to).outgoing(from).no_duplicates(),
{
    let h = g.with_edge(from, to);
    if !g.edges[from].contains(to) {
        let before = g.edges[from];
        let after = before.push(to);
        assert(h.outgoing(from) == after);
        assert forall|i: int, k: int|
            0 <= i < h.edges.len() && 0 <= k < h.edges[i].len() implies 0
            <= #[trigger] h.edges[i][k] < h.nodes.len() by {
            if i == from && k < before.len() {
                assert(h.edges[i][k] == g.edges[i][k]);
            } else if i != from {
                assert(h.edges[i] == g.edges[i]);
            }
        }
        assert(after[before.len() as int] == to);
        assert forall|i: int, t: int| #[trigger] g.outgoing(i).contains(t) implies h.outgoing(
            i,
        ).contains(t) by {
            if i == from {
                let k = choose|k: int| 0 <= k < before.len() && before[k] == t;
                assert(after[k] == t);
            }
        }
    }
}

impl ControlGraph {
    /// A graph without nodes.
    pub fn new() -> (r: Self)
        ensures
            r@ == GraphView::new(),
            r@.wf(),
    {
        let r: ControlGraph = ControlGraph {
            keys: keys_new(),
            nodes: Vec::new(),
            edges: Vec::new(),
        };
        assert(r@ =~= GraphView::new());
        r
    }

    /// A copy.
    pub fn copy(&self) -> (r: Self)
        ensures
            r@ == self@,
    {
        let mut nodes: Vec<ControlNode> = Vec::new();
        let mut i: usize = 0;
        while i < self.nodes.len()
            invariant
                i <= self.nodes@.len(),
                nodes@.len() == i,
                forall|k: int| 0 <= k < i ==> (#[trigger] nodes@[k])@ == self.nodes@[k]@,
            decreases self.nodes@.len() - i,
        {
            nodes.push(self.nodes[i].copy());
            i = i + 1;
        }
        let mut edges: Vec<Vec<ControlNodeId>> = Vec::new();
        let mut j: usize = 0;
        while j < self.edges.len()
            invariant
                j <= self.edges@.len(),
                edges@.len() == j,
                forall|k: int| 0 <= k < j ==> (#[trigger] edges@[k])@ == self.edges@[k]@,
            decreases self.edges@.len() - j,
        {
            edges.push(copy_ids(&self.edges[j]));
            j = j + 1;
        }
        let r: ControlGraph = ControlGraph { keys: keys_clone(&self.keys), nodes, edges };
        proof {
            assert(r@.nodes =~= self@.nodes);
            assert forall|k: int| 0 <= k < r@.edges.len() implies #[trigger] r@.edges[k]
                == self@.edges[k] by {
                assert(r.edges@[k]@ == self.edges@[k]@);
            }
            assert(r@.edges =~= self@.edges);
        }
        r
    }

    /// The node at a place.
    pub fn get_vertex(&self, node_id: ControlNodeId) -> (r: Option<&ControlNode>)
        ensures
            match r {
                Some(node) => self@.get_vertex(node_id@) == Some(node@),
                None => self@.get_vertex(node_id@) is None,
            },
    {
        if node_id.0 < self.nodes.len() {
            Some(&self.nodes[node_id.0])
        } else {
            None
        }
    }

    /// Adds a node, unless it is already there, and returns its place.
    pub fn insert_vertex(&mut self, vertex: ControlNode) -> (r: ControlNodeId)
        ensures
            final(self)@ == old(self)@.with_vertex(vertex@),
            r@ == old(self)@.place(vertex@),
            old(self)@.wf() ==> final(self)@.wf(),
    {
        let ghost before = self@;
        let ghost old_keys = set_keys(self.keys);
        proof {
            if before.wf() {
                law_graph_vertex(before, vertex@);
            }
        }
        let key: NodeKey = key_of(&vertex);
        let ghost model = key_model(key);
        let (index, inserted): (usize, bool) = keys_insert(&mut self.keys, key);
        proof {
            if !inserted {
                let place = before.place(vertex@);
                assert(is_first(old_keys, model, index as int));
                assert(is_first(old_keys, model, place));
                assert(old_keys[place] == model);
                assert(old_keys[index as int] == model);
            }
        }
        if inserted {
            proof {
                if index < old_keys.len() {
                    assert(old_keys[index as int] == model);
                }
            }
            self.nodes.push(vertex);
            self.edges.push(Vec::new());
            proof {
                assert(self@.edges.last() =~= Seq::<int>::empty());
                assert(self@.keys =~= before.keys.push(model));
                assert(self@.nodes =~= before.nodes.push(vertex@));
                assert(self@.edges =~= before.edges.push(seq![]));
            }
        }
        ControlNodeId(index)
    }

    /// Adds an edge between two nodes. Returns whether the first one is in the graph.
    pub fn insert_edge(&mut self, from_id: ControlNodeId, to_id: ControlNodeId) -> (r: bool)
        ensures
            final(self)@ == old(self)@.with_edge(from_id@, to_id@),
            r == (from_id@ < old(self)@.edges.len()),
            old(self)@.wf() && to_id@ < old(self)@.nodes.len() ==> final(self)@.wf(),
    {
        proof {
            if self@.wf() && from_id@ < self@.nodes.len() && to_id@ < self@.nodes.len() {
                law_graph_edge(self@, from_id@, to_id@);
            }
        }
        if from_id.0 >= self.edges.len() {
            return false;
        }
        let ghost before = self@;
        let known: bool = has_id(&self.edges[from_id.0], to_id);
        if !known {
            let ghost held = self.edges@;
            let mut targets: Vec<ControlNodeId> = copy_ids(&self.edges[from_id.0]);
            targets.push(to_id);
            let ghost pushed = targets@;
            std::mem::swap(&mut targets, &mut self.edges[from_id.0]);
            proof {
                assert(id_models(pushed) =~= before.edges[from_id@].push(to_id@));
                assert(self@.edges =~= before.edges.update(from_id@, id_models(pushed)));
                assert(self@.nodes =~= before.nodes);
            }
        }
        true
    }

    /// Where a node leads.
    pub fn outgoing(&self, node_id: ControlNodeId) -> (r: Vec<ControlNodeId>)
        ensures
            id_models(r@) == self@.outgoing(node_id@),
    {
        if node_id.0 < self.edges.len() {
            copy_ids(&self.edges[node_id.0])
        } else {
            let r: Vec<ControlNodeId> = Vec::new();
            assert(id_models(r@) =~= Seq::<int>::empty());
            r
        }
    }
}

fn bare_key(kind: u8) -> (r: NodeKey)
    ensures
        key_model(r) == (kind as int, no_span(), 0int, Seq::<char>::empty()),
{
    let path: String = String::new();
    assert(path@ =~= Seq::<char>::empty());
    (kind, 0, 0, 0, 0, 0, path)
}

fn key_of(node: &ControlNode) -> (r: NodeKey)
    ensures
        key_model(r) == node_key(node@),
{
    match node {
        ControlNode::Start => bare_key(0),
        ControlNode::Junction => bare_key(1),
        ControlNode::Return => bare_key(2),
        ControlNode::End => bare_key(3),
        ControlNode::Unreachable => bare_key(4),
        ControlNode::Info(ControlInfo::VarDeclared { scope_id }) => (
            5,
            0,
            0,
            0,
            0,
            scope_id.index,
            scope_id.sym_path.text.clone(),
        ),
        ControlNode::Info(ControlInfo::VarUsed { line_info, scope_id }) => (
            6,
            line_info.line_start,
            line_info.line_end,
            line_info.col_start,
            line_info.col_end,
            scope_id.index,
            scope_id.sym_path.text.clone(),
        ),
        ControlNode::Info(ControlInfo::VarAssigned { line_info, scope_id }) => (
            7,
            line_info.line_start,
            line_info.line_end,
            line_info.col_start,
            line_info.col_end,
            scope_id.index,
            scope_id.sym_path.text.clone(),
        ),
    }
}

fn copy_ids(ids: &Vec<ControlNodeId>) -> (r: Vec<ControlNodeId>)
    ensures
        r@ == ids@,
{
    let mut copies: Vec<ControlNodeId> = Vec::new();
    let mut i: usize = 0;
    while i < ids.len()
        invariant
            i <= ids@.len(),
            copies@ == ids@.take(i as int),
        decreases ids@.len() - i,
    {
        copies.push(ids[i]);
        i = i + 1;
        assert(copies@ =~= ids@.take(i as int));
    }
    assert(copies@ =~= ids@);
    copies
}

fn has_id(ids: &Vec<ControlNodeId>, id: ControlNodeId) -> (r: bool)
    ensures
        r == id_models(ids@).contains(id@),
{
    let mut i: usize = 0;
    while i < ids.len()
        invariant
            i <= ids@.len(),
            forall|k: int| 0 <= k < i ==> (#[trigger] ids@[k])@ != id@,
        decreases ids@.len() - i,
    {
        if ids[i].0 == id.0 {
            assert(id_models(ids@)[i as int] == id@);
            return true;
        }
        i = i + 1;
    }
    assert forall|k: int| 0 <= k < ids@.len() implies id_models(ids@)[k] != id@ by {
        assert(ids@[k]@ != id@);
    }
    false
}

} // verus!
