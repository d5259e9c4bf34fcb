use vstd::prelude::*;

use crate::analyzer::{AnalyzerView, ScopeEvalStateView, ScopeNodeView};
use crate::ast::{DeclView, ObjectView};
use crate::scope::{PayloadView, ScopeIdView, ScopeKind};
use crate::token::TokenView;

verus! {

/// Whether a declaration is that of a module.
pub open spec fn holds_module(node: DeclView) -> bool {
    node matches DeclView::Decl { object: Some(object), .. } && object.is_module()
}

/// Whether the scope at a place is declared, is no module, and is still to be visited.
pub open spec fn waits(s: AnalyzerView, i: int) -> bool {
    &&& 0 <= i < s.scopes.len()
    &&& s.scopes[i].kind == ScopeKind::Unknown
    &&& s.states[i] matches ScopeEvalStateView::NotVisited(ScopeNodeView::Decl(node))
    &&& !holds_module(node)
}

/// Whether there is a current scope, and a state for each scope.
pub open spec fn is_ready(s: AnalyzerView) -> bool {
    &&& s.states.len() == s.scopes.len()
    &&& s.stack.len() > 0
    &&& 0 <= s.stack.last().index < s.scopes.len()
}

/// Whether a state comes after another one in the same scope: what waits there still waits, and
/// what was visited is visited.
pub open spec fn goes_on_from(s: AnalyzerView, t: AnalyzerView) -> bool {
    &&& is_ready(t)
    &&& t.stack == s.stack
    &&& s.scopes.len() <= t.scopes.len()
    &&& s.states.len() <= t.states.len()
    &&& forall|i: int| #[trigger] waits(s, i) ==> waits(t, i)
    &&& forall|i: int|
        0 <= i < s.states.len() && s.states[i] is Visited ==> (#[trigger] t.states[i]) is Visited
}

/// Whether scopes stand in the order in which they were declared, all of them are new in a state
/// that comes after another one and wait to be visited, and no other new scope does: all other
/// ones were visited.
pub open spec fn are_left(s: AnalyzerView, t: AnalyzerView, ids: Seq<ScopeIdView>) -> bool {
    &&& goes_on_from(s, t)
    &&& forall|k: int|
        0 <= k < ids.len() ==> s.scopes.len() <= (#[trigger] ids[k]).index && waits(t, ids[k].index)
    &&& forall|j: int, k: int|
        0 <= j < k < ids.len() ==> (#[trigger] ids[j]).index < (#[trigger] ids[k]).index
    &&& forall|i: int|
        s.scopes.len() <= i < t.scopes.len() ==> (#[trigger] t.states[i]) is Visited || is_among(
            ids,
            i,
        )
}

/// Whether one of the scopes is the one at a place.
pub open spec fn is_among(ids: Seq<ScopeIdView>, i: int) -> bool {
    exists|k: int| 0 <= k < ids.len() && (#[trigger] ids[k]).index == i
}

proof fn lemma_joined(
    s: AnalyzerView,
    t: AnalyzerView,
    u: AnalyzerView,
    first: Seq<ScopeIdView>,
    second: Seq<ScopeIdView>,
)
    requires
        are_left(s, t, first),
        are_left(t, u, second),
    ensures
        are_left(s, u, first + second),
{
    let ids = first + second;
    assert forall|i: int| 0 <= i < s.states.len() && s.states[i] is Visited implies (
    #[trigger] u.states[i]) is Visited by {
        assert(t.states[i] is Visited);
    }
    assert forall|k: int| 0 <= k < ids.len() implies s.scopes.len() <= (#[trigger] ids[k]).index
        && waits(u, ids[k].index) by {
        if k < first.len() {
            assert(ids[k] == first[k]);
            assert(waits(t, first[k].index));
        } else {
            assert(ids[k] == second[k - first.len()]);
        }
    }
    assert forall|j: int, k: int| 0 <= j < k < ids.len() implies (#[trigger] ids[j]).index < (
    #[trigger] ids[k]).index by {
        if k < first.len() {
            assert(ids[j] == first[j] && ids[k] == first[k]);
        } else if j >= first.len() {
            assert(ids[j] == second[j - first.len()] && ids[k] == second[k - first.len()]);
        } else {
            assert(ids[j] == first[j] && ids[k] == second[k - first.len()]);
            assert(waits(t, first[j].index));
        }
    }
    assert forall|i: int| s.scopes.len() <= i < u.scopes.len() implies (#[trigger] u.states[i])
        is Visited || is_among(ids, i) by {
        if i < t.scopes.len() {
            if !(t.states[i] is Visited) {
                let k = choose|k: int| 0 <= k < first.len() && (#[trigger] first[k]).index == i;
                assert(ids[k] == first[k]);
            }
        } else if !(u.states[i] is Visited) {
            let k = choose|k: int| 0 <= k < second.len() && (#[trigger] second[k]).index == i;
            assert(ids[first.len() + k] == second[k]);
        }
    }
}

proof fn lemma_symbol(s: AnalyzerView, node: DeclView, name: TokenView)
    requires
        is_ready(s),
    ensures
        s.add_symbol(node, name).1 matches Ok(id) && id.index == s.scopes.len(),
        goes_on_from(s, s.add_symbol(node, name).0),
        s.add_symbol(node, name).0.scopes.len() == s.scopes.len() + 1,
        !holds_module(node) ==> waits(s.add_symbol(node, name).0, s.scopes.len() as int),
        holds_module(node) ==> !waits(s.add_symbol(node, name).0, s.scopes.len() as int),
{
    reveal(AnalyzerView::add_symbol);
    reveal(AnalyzerView::sym_name);
    let (t, r) = s.sym_name(name);
    let (u, id) = t.add_child_scope(
        t.current_id(),
        ScopeKind::Unknown,
        r->Ok_0,
        ScopeEvalStateView::NotVisited(ScopeNodeView::Decl(node)),
        PayloadView::Unknown,
        name.line_info,
    );
    assert(t.states == s.states);
    assert forall|i: int| #[trigger] waits(s, i) implies waits(u, i) by {
        assert(t.scopes[i].kind == s.scopes[i].kind);
        assert(u.scopes[i].kind == t.scopes[i].kind);
        assert(u.states[i] == s.states[i]);
    }
    assert(u.scopes[s.scopes.len() as int].kind == ScopeKind::Unknown);
}

proof fn lemma_declared(s: AnalyzerView, node: DeclView)
    requires
        is_ready(s),
    ensures
        s.pre_declare_decl(node).1 matches Ok(id) ==> {
            let t = s.pre_declare_decl(node).0;
            &&& goes_on_from(s, t)
            &&& !holds_module(node) ==> id.index == s.scopes.len() && t.scopes.len()
                == s.scopes.len() + 1 && waits(t, id.index)
            &&& holds_module(node) ==> 0 <= id.index < t.scopes.len() && !waits(t, id.index) && (t
                == s || (id.index == s.scopes.len() && t.scopes.len() == s.scopes.len() + 1))
        },
{
    reveal(AnalyzerView::pre_declare_decl);
    reveal(AnalyzerView::declare_sym);
    reveal(AnalyzerView::declare_sym_with_value);
    reveal(AnalyzerView::redeclared);
    match node {
        DeclView::Decl { name, .. } => {
            lemma_symbol(s, node, name);
        },
        DeclView::DeclWithDirective { name, .. } => {
            lemma_symbol(s, node, name);
        },
        DeclView::Using { .. } => {},
    }
}

/// Declaring what stands outside of functions leaves what is to be visited later, in order: no
/// module is among it, and whatever else was declared was visited.
pub proof fn law_first_stage(s: AnalyzerView, node: DeclView, fuel: int)
    requires
        is_ready(s),
    ensures
        s.declaration_first_stage(node, fuel).1 matches Ok(ids) ==> are_left(
            s,
            s.declaration_first_stage(node, fuel).0,
            ids,
        ),
    decreases fuel, 1nat, 0int,
{
    reveal(AnalyzerView::declaration_first_stage);
    reveal(AnalyzerView::declare_module);
    reveal(AnalyzerView::check_colon);
    reveal(AnalyzerView::pre_declare_decl);
    lemma_declared(s, node);
    if fuel > 0 {
        let (t, declared) = s.pre_declare_decl(node);
        if let Ok(id) = declared {
            if !holds_module(node) {
                let ids = seq![id];
                assert(ids[0] == id);
                assert(is_among(ids, id.index));
                assert(are_left(s, t, ids));
            } else if let DeclView::Decl {
                eq_token,
                object: Some(ObjectView::Module { line_info: _, decls }),
                ..
            } = node {
                let (u, _) = t.check_colon(eq_token);
                let v = u.set_kind(id, ScopeKind::Module);
                let (w, pushed) = v.push_current_scope(id);
                let x = w.set_scope_eval_state(id, ScopeEvalStateView::Visited);
                if pushed is Ok {
                    assert forall|i: int| #[trigger] waits(t, i) implies waits(x, i) by {
                        assert(x.scopes[i] == t.scopes[i]);
                    }
                    assert forall|i: int| 0 <= i < t.states.len()
                        && t.states[i] is Visited implies (
                    #[trigger] x.states[i]) is Visited by {}
                    assert(x.states[id.index] is Visited);
                    assert(x.stack == t.stack.push(id));
                    let none = Seq::<ScopeIdView>::empty();
                    assert(are_left(x, x, none));
                    lemma_module(x, x, decls, none, fuel - 1, 0);
                    let (y, rest) = x.declare_module(decls, none, fuel - 1, 0);
                    if let Ok(ids) = rest {
                        let z = y.pop_current_scope();
                        assert(z.stack =~= s.stack);
                        assert forall|i: int| #[trigger] waits(s, i) implies waits(z, i) by {
                            assert(waits(t, i));
                            assert(waits(x, i));
                            assert(waits(y, i));
                        }
                        assert forall|i: int|
                            0 <= i < s.states.len() && s.states[i] is Visited implies (
                        #[trigger] z.states[i]) is Visited by {
                            assert(t.states[i] is Visited);
                            assert(x.states[i] is Visited);
                            assert(y.states[i] is Visited);
                        }
                        assert forall|k: int| 0 <= k < ids.len() implies s.scopes.len() <= (
                        #[trigger] ids[k]).index && waits(z, ids[k].index) by {
                            assert(waits(y, ids[k].index));
                        }
                        assert forall|i: int| s.scopes.len() <= i < z.scopes.len() implies (
                        #[trigger] z.states[i]) is Visited || is_among(ids, i) by {
                            if i < x.scopes.len() {
                                assert(i == id.index);
                                assert(x.states[i] is Visited);
                            }
                            assert(y.states[i] is Visited || is_among(ids, i));
                        }
                        assert(are_left(s, z, ids));
                    }
                }
            }
        }
    }
}

proof fn lemma_module(
    s: AnalyzerView,
    t: AnalyzerView,
    decls: Seq<DeclView>,
    ids: Seq<ScopeIdView>,
    fuel: int,
    i: int,
)
    requires
        are_left(s, t, ids),
    ensures
        t.declare_module(decls, ids, fuel, i).1 matches Ok(all) ==> are_left(
            s,
            t.declare_module(decls, ids, fuel, i).0,
            all,
        ),
    decreases fuel, 2nat, decls.len() - i,
{
    reveal(AnalyzerView::declare_module);
    reveal(AnalyzerView::declaration_first_stage);
    if 0 <= i < decls.len() {
        law_first_stage(t, decls[i], fuel);
        let (u, found) = t.declaration_first_stage(decls[i], fuel);
        if let Ok(more) = found {
            lemma_joined(s, t, u, ids, more);
            lemma_module(s, u, decls, ids + more, fuel, i + 1);
        }
    }
}

} // verus!
