use vstd::prelude::*;

use crate::analyzer::exprs::{nth_entry, total_args, ArgInfoView, ArgsView};
use crate::analyzer::flow::{adding_node, holds_node};
use crate::analyzer::{
    lemma_child_added, lemma_current_stay, AnalyzerView, ScopeEvalStateView, ScopeNodeView,
};
use crate::ast;
use crate::cfg::{ControlInfoView, ControlNodeView};
use crate::common::{ErrorView, Layout, Span, StopView};
use crate::context::{kind_max, kind_min, kind_signed, ContextView, ImmView, TypeView, ValueView};
use crate::scope::{
    path_with, FieldDataView, FieldInfoView, PayloadView, ScopeIdView, ScopeKind, ScopeView,
};
use crate::table::{entered, law_table_insert, TableView};
use crate::token::{TokenKind, TokenView};

verus! {

/// Padding goes to the first multiple of the alignment that does not stand before the offset.
pub proof fn law_padded(s: AnalyzerView, offset: usize, alignment: usize)
    ensures
        s.padded(offset, alignment) matches Ok(end) ==> {
            &&& alignment > 0
            &&& offset <= end < offset + alignment
            &&& end % alignment == 0
        },
{
    reveal(AnalyzerView::padded);
    if alignment > 0 {
        let rest = offset % alignment;
        assert(0 <= rest < alignment) by (nonlinear_arith)
            requires
                alignment > 0,
                rest == offset % alignment,
        ;
        if rest != 0 {
            assert((offset + (alignment - rest)) % (alignment as int) == 0) by (nonlinear_arith)
                requires
                    alignment > 0,
                    rest == offset % alignment,
            ;
        }
    }
}

/// What comes after an item of a layout does not overlap it, and begins at a multiple of the
/// alignment of the item.
pub proof fn law_advance(s: AnalyzerView, offset: usize, layout: Layout)
    ensures
        s.advance(offset, layout) matches Ok(end) ==> {
            &&& offset + layout.size <= end < offset + layout.size + layout.alignment
            &&& end % layout.alignment == 0
        },
{
    reveal(AnalyzerView::advance);
    if offset + layout.size <= usize::MAX {
        law_padded(s, (offset + layout.size) as usize, layout.alignment);
    }
}

pub(crate) proof fn lemma_whole_layout(s: AnalyzerView, end: usize, alignment: usize)
    ensures
        s.whole_layout(0, end, alignment) matches Ok(layout) ==> {
            &&& layout.alignment == alignment
            &&& 0 < layout.size
            &&& end <= layout.size
            &&& layout.size % alignment == 0
        },
{
    reveal(AnalyzerView::whole_layout);
    law_padded(s, end, alignment);
    assert(alignment > 0 ==> alignment % alignment == 0) by (nonlinear_arith);
}

/// The size of a tuple is positive and a multiple of its alignment, and all items are within it.
pub proof fn law_tuple_layout(
    s: AnalyzerView,
    items: Seq<TypeView>,
    line: Span,
    offset: usize,
    alignment: usize,
    fuel: int,
    i: int,
)
    ensures
        s.resolve_layout_tuple(items, line, offset, alignment, fuel, i).1 matches Ok(layout) ==> {
            &&& 0 < layout.size
            &&& offset <= layout.size
            &&& alignment <= layout.alignment
            &&& layout.size % layout.alignment == 0
        },
    decreases items.len() - i,
{
    reveal(AnalyzerView::resolve_layout_tuple);
    reveal(AnalyzerView::resolve_layout);
    reveal(AnalyzerView::larger);
    if i < 0 || i >= items.len() {
        lemma_whole_layout(s, offset, alignment);
    } else {
        let (t, item) = s.resolve_layout(items[i], line, fuel);
        if let Ok(layout) = item {
            law_advance(t, offset, layout);
            if let Ok(end) = t.advance(offset, layout) {
                law_tuple_layout(
                    t,
                    items,
                    line,
                    end,
                    t.larger(alignment, layout.alignment),
                    fuel,
                    i + 1,
                );
            }
        }
    }
}

/// The size of a struct is positive and a multiple of its alignment, and all fields are within
/// it.
pub proof fn law_struct_layout(
    s: AnalyzerView,
    fields: Seq<FieldInfoView>,
    offset: usize,
    alignment: usize,
    offsets: TableView<FieldDataView>,
    top: FieldInfoView,
    fuel: int,
    i: int,
)
    ensures
        s.resolve_layout_struct(fields, 0, offset, alignment, offsets, top, fuel, i).1 matches Ok(
            (layout, _),
        ) ==> {
            &&& 0 < layout.size
            &&& offset <= layout.size
            &&& alignment <= layout.alignment
            &&& layout.size % layout.alignment == 0
        },
    decreases fields.len() - i,
{
    reveal(AnalyzerView::resolve_layout_struct);
    reveal(AnalyzerView::resolve_layout_field);
    reveal(AnalyzerView::larger);
    if i < 0 || i >= fields.len() {
        lemma_whole_layout(s, offset, alignment);
    } else {
        let (t, item) = s.resolve_layout_field(fields[i], offset, offsets, top, fuel);
        if let Ok((layout, table)) = item {
            law_advance(t, offset, layout);
            if let Ok(end) = t.advance(offset, layout) {
                law_struct_layout(
                    t,
                    fields,
                    end,
                    t.larger(alignment, layout.alignment),
                    table,
                    top,
                    fuel,
                    i + 1,
                );
            }
        }
    }
}

/// Going into a scope and back changes nothing.
pub proof fn law_push_pop_scope(s: AnalyzerView, id: ScopeIdView)
    requires
        0 <= id.index < s.scopes.len(),
    ensures
        s.push_current_scope(id).1 is Ok,
        s.push_current_scope(id).0.current_id() == id,
        s.push_current_scope(id).0.pop_current_scope() == s,
{
    assert(s.stack.push(id).drop_last() =~= s.stack);
}

/// The scopes that are current in a state are current in every state that comes after it, in the
/// same order. Where no further scope is current, the current scope is the same again.
pub proof fn law_current_scopes_stay(s: AnalyzerView, t: AnalyzerView)
    requires
        t.follows(s),
    ensures
        s.stack.is_prefix_of(t.stack),
        t.stack.len() == s.stack.len() ==> t.stack == s.stack && t.current_id() == s.current_id(),
{
    lemma_current_stay(s, t);
    if t.stack.len() == s.stack.len() {
        assert(t.stack =~= s.stack);
    }
}

/// A scope that was added to another one is found under its name, with what it was given: its
/// identity is the next one, its path is that of its parent with its name, and it has no
/// children. All other names of the parent stand for what they stood for, nothing else of the
/// parent changes, and no other scope does.
pub proof fn law_added_scope_is_found(
    s: AnalyzerView,
    parent: ScopeIdView,
    kind: ScopeKind,
    name: Seq<char>,
    state: ScopeEvalStateView,
    payload: PayloadView,
    line: Span,
    other: Seq<char>,
)
    requires
        s.wf(),
        0 <= parent.index < s.scopes.len(),
    ensures
        ({
            let (t, id) = s.add_child_scope(parent, kind, name, state, payload, line);
            let before = s.scopes[parent.index];
            let after = t.scopes[parent.index];
            &&& t.wf()
            &&& t == (AnalyzerView { scopes: t.scopes, states: t.states, ..s })
            &&& t.scopes.len() == s.scopes.len() + 1
            &&& id.index == s.scopes.len()
            &&& id.sym_path == path_with(before.id.sym_path, name)
            &&& (t.get_scope(id) matches Ok(scope) && scope.id == id && scope.kind == kind
                && scope.name == name && scope.payload == payload && scope.line_info == line
                && scope.parent == Some(parent) && scope.children == TableView::<
                ScopeIdView,
            >::empty() && scope.file_path is None)
            &&& t.get_scope_eval_state(id) == Ok::<_, StopView>(state)
            &&& after.children.get(name) == Some(id)
            &&& t.find_child(parent, name) == Ok::<_, StopView>(Some(id))
            &&& other != name ==> t.find_child(parent, other) == s.find_child(parent, other)
            &&& after == (ScopeView { children: after.children, ..before })
            &&& forall|i: int|
                0 <= i < s.scopes.len() && i != parent.index ==> #[trigger] t.scopes[i]
                    == s.scopes[i]
            &&& forall|i: int|
                0 <= i < s.states.len() ==> #[trigger] t.states[i] == s.states[i]
        }),
{
    lemma_child_added(s, parent, kind, name, state, payload, line);
    reveal(AnalyzerView::wf);
    reveal(AnalyzerView::find_child);
    let (t, id) = s.add_child_scope(parent, kind, name, state, payload, line);
    law_table_insert(s.scopes[parent.index].children, name, id, name);
    law_table_insert(s.scopes[parent.index].children, name, id, other);
}

/// A name is declared once in a scope: to declare it again is refused, with the place of the
/// first declaration, and changes nothing.
pub proof fn law_redeclaration_refused(
    s: AnalyzerView,
    first: ast::DeclView,
    second: ast::DeclView,
    name: TokenView,
)
    requires
        s.wf(),
        name.kind != TokenKind::Underscore,
    ensures
        s.declare_sym(first, name) matches (t, Ok(id)) ==> t.declare_sym(second, name) == (
            t,
            Err::<ScopeIdView, _>(
                StopView::Errors(
                    ErrorView::pair(
                        t.make_err("redeclaration of symbol"@, name.line_info),
                        t.make_note("already declared here"@, name.line_info),
                    ),
                ),
            ),
        ),
{
    reveal(AnalyzerView::declare_sym);
    reveal(AnalyzerView::repeated);
    reveal(AnalyzerView::redeclared);
    reveal(AnalyzerView::add_symbol);
    reveal(AnalyzerView::sym_name);
    reveal(AnalyzerView::scope_line);
    if s.repeated(name) == Ok::<Option<ScopeIdView>, StopView>(None) {
        assert(0 <= s.current_id().index < s.scopes.len()) by {
            reveal(AnalyzerView::wf);
        }
        law_added_scope_is_found(
            s,
            s.current_id(),
            ScopeKind::Unknown,
            name.text,
            ScopeEvalStateView::NotVisited(ScopeNodeView::Decl(first)),
            PayloadView::Unknown,
            name.line_info,
            name.text,
        );
    }
}

/// Whether a state comes after another one in the same scope, which loses no name.
pub open spec fn keeps_names(s: AnalyzerView, t: AnalyzerView) -> bool {
    &&& t.wf()
    &&& t.current_id() == s.current_id()
    &&& forall|name: Seq<char>| #[trigger]
        s.current_scope().children.has(name) ==> t.current_scope().children.has(name)
}

proof fn lemma_symbol_added(s: AnalyzerView, node: ast::DeclView, name: TokenView)
    requires
        s.wf(),
    ensures
        ({
            let (t, r) = s.add_symbol(node, name);
            &&& keeps_names(s, t)
            &&& r is Ok
            &&& name.kind != TokenKind::Underscore ==> t.current_scope().children.has(name.text)
        }),
{
    reveal(AnalyzerView::add_symbol);
    reveal(AnalyzerView::sym_name);
    reveal(AnalyzerView::wf);
    let (t, r) = s.sym_name(name);
    assert(t.wf());
    assert(t.current_id() == s.current_id());
    assert(t.current_scope().children == s.current_scope().children);
    let text = r->Ok_0;
    let state = ScopeEvalStateView::NotVisited(ScopeNodeView::Decl(node));
    let (u, id) = t.add_child_scope(
        t.current_id(),
        ScopeKind::Unknown,
        text,
        state,
        PayloadView::Unknown,
        name.line_info,
    );
    law_added_scope_is_found(
        t,
        t.current_id(),
        ScopeKind::Unknown,
        text,
        state,
        PayloadView::Unknown,
        name.line_info,
        text,
    );
    let before = t.current_scope().children;
    let after = u.current_scope().children;
    assert(after == before.inserted(text, id));
    if before.has(text) {
        assert(after.names == before.names);
    } else {
        assert(after.names[before.names.len() as int] == text);
        assert forall|other: Seq<char>| #[trigger] before.has(other) implies after.has(other) by {
            let k = choose|k: int| 0 <= k < before.names.len() && before.names[k] == other;
            assert(after.names[k] == other);
        }
    }
}

proof fn lemma_pre_declared(s: AnalyzerView, decl: ast::DeclView)
    requires
        s.wf(),
    ensures
        ({
            let (t, r) = s.pre_declare_decl(decl);
            &&& keeps_names(s, t)
            &&& r is Ok ==> is_declared(t, decl)
        }),
{
    reveal(AnalyzerView::pre_declare_decl);
    reveal(AnalyzerView::declare_sym);
    reveal(AnalyzerView::declare_sym_with_value);
    reveal(AnalyzerView::repeated);
    reveal(AnalyzerView::redeclared);
    reveal(AnalyzerView::find_child);
    match decl {
        ast::DeclView::Decl { name, .. } => {
            lemma_symbol_added(s, decl, name);
        },
        ast::DeclView::DeclWithDirective { name, .. } => {
            lemma_symbol_added(s, decl, name);
        },
        ast::DeclView::Using { .. } => {},
    }
}

/// Whether what a declaration gives a name to is found under that name in the current scope.
pub open spec fn is_declared(s: AnalyzerView, decl: ast::DeclView) -> bool {
    match decl {
        ast::DeclView::Decl { name, .. } => name.kind == TokenKind::Underscore
            || s.current_scope().children.has(name.text),
        ast::DeclView::DeclWithDirective { name, .. } => name.kind == TokenKind::Underscore
            || s.current_scope().children.has(name.text),
        ast::DeclView::Using { .. } => true,
    }
}

/// After a list of declarations was declared without an error, every one of them is found, so
/// that it can be used before its place in the list.
pub proof fn law_pre_declared_are_found(
    s: AnalyzerView,
    decls: Seq<ast::DeclView>,
    errs: ErrorView,
    i: int,
    k: int,
)
    requires
        s.wf(),
        0 <= i <= decls.len(),
    ensures
        ({
            let (t, r) = s.pre_declare_decls(decls, errs, i);
            &&& keeps_names(s, t)
            &&& r is Ok ==> errs.is_empty()
            &&& r is Ok && i <= k < decls.len() ==> is_declared(t, decls[k])
        }),
    decreases decls.len() - i,
{
    reveal(AnalyzerView::pre_declare_decls);
    if i < decls.len() {
        lemma_pre_declared(s, decls[i]);
        let (t, r) = s.pre_declare_decl(decls[i]);
        match r {
            Ok(_) => {
                law_pre_declared_are_found(t, decls, errs, i + 1, k);
            },
            Err(StopView::Errors(err)) => {
                lemma_chain_not_empty(errs, err);
                law_pre_declared_are_found(t, decls, errs.chain(err), i + 1, k);
            },
            Err(_) => {},
        }
    }
}

/// Declarations without a name never clash.
pub proof fn law_unnamed_declared(s: AnalyzerView, node: ast::DeclView, name: TokenView)
    requires
        name.kind == TokenKind::Underscore,
    ensures
        s.declare_sym(node, name).1 is Ok,
{
    reveal(AnalyzerView::declare_sym);
    reveal(AnalyzerView::repeated);
    reveal(AnalyzerView::add_symbol);
    reveal(AnalyzerView::sym_name);
}

/// An integer literal keeps its value in every integer type that can hold it, and no other
/// integer type takes it.
pub proof fn law_literal_keeps_value(
    s: AnalyzerView,
    taipe: TypeView,
    number: int,
    line: Span,
    shown_as: Option<Seq<char>>,
)
    requires
        taipe.int_kind() is Some,
    ensures
        ({
            let kind = taipe.int_kind()->0;
            let r = s.transform_varint(taipe, ImmView::VarInt(number), line, shown_as);
            &&& r is Ok <==> kind_min(kind) <= number <= kind_max(kind)
            &&& r matches Ok(imm) ==> imm.int_kind() == Some(kind) && imm.int_value() == number
            &&& r matches Err(e) ==> e is Errors
        }),
{
    reveal(AnalyzerView::transform_varint);
}

/// A value that is known is its own evaluation.
pub proof fn law_evaluated_value_stays(s: AnalyzerView, ctx: ContextView)
    requires
        ctx.value is Imm,
    ensures
        s.compeval_trivial(ctx) == Ok::<_, StopView>(ctx),
{
    reveal(AnalyzerView::compeval_trivial);
    reveal(AnalyzerView::compeval_context);
    reveal(AnalyzerView::compeval_trivial_impl);
}

/// Whether the visit of every scope is complete.
pub open spec fn all_visited(s: AnalyzerView) -> bool {
    forall|i: int| 0 <= i < s.states.len() ==> #[trigger] s.states[i] is Visited
}

proof fn lemma_unfinished(s: AnalyzerView, found: Seq<ScopeIdView>, i: int)
    requires
        0 <= i,
    ensures
        s.unfinished_from(found, i) matches Ok(ids) ==> {
            &&& ids.len() >= found.len()
            &&& ids.len() == 0 ==> forall|k: int|
                i <= k < s.states.len() ==> #[trigger] s.states[k] is Visited
        },
    decreases s.states.len() - i,
{
    if i < s.states.len() {
        match s.states[i] {
            ScopeEvalStateView::NotVisited(_) => {
                lemma_unfinished(s, found.push(s.scopes[i].id), i + 1);
            },
            ScopeEvalStateView::VisitInProgress => {},
            ScopeEvalStateView::Visited => {
                lemma_unfinished(s, found, i + 1);
                if let Ok(ids) = s.unfinished_from(found, i) {
                    if ids.len() == 0 {
                        assert forall|k: int| i <= k < s.states.len() implies
                            #[trigger] s.states[k] is Visited by {
                            if k > i {
                                assert(i + 1 <= k);
                            }
                        }
                    }
                }
            },
        }
    }
}

proof fn lemma_finish_scopes(s: AnalyzerView, fuel: int)
    ensures
        s.finish_scopes(fuel).1 is Ok ==> all_visited(s.finish_scopes(fuel).0),
    decreases fuel,
{
    reveal(AnalyzerView::finish_scopes);
    if fuel > 0 {
        lemma_unfinished(s, seq![], 0);
        if let Ok(ids) = s.get_unfinished_scopes() {
            if ids.len() > 0 {
                let (t, r) = s.visit_unfinished(ids, 0);
                if r is Ok {
                    lemma_finish_scopes(t, fuel - 1);
                }
            }
        }
    }
}

/// After an analysis without errors every scope was visited.
pub proof fn law_analysis_visits_all(s: AnalyzerView)
    ensures
        s.sem_analysis().1 is Ok ==> all_visited(s.sem_analysis().0),
{
    reveal(AnalyzerView::sem_analysis);
    let ids = s.root_ids();
    let (t, r) = s.visit_roots(ids, ErrorView::empty(), 0);
    lemma_finish_scopes(t, 0x400);
}

/// A program is accepted exactly when the analysis comes to its end without an error, neither one
/// that ended it nor one that was kept.
pub proof fn law_accepted_without_errors(s: AnalyzerView)
    ensures
        s.analyze() is Ok <==> s.sem_analysis().1 is Ok
            && s.sem_analysis().0.saved_errors.is_empty(),
        s.analyze() matches Ok(result) ==> result.scope_pool == s.sem_analysis().0.scopes
            && result.warnings == ErrorView::Errors(s.sem_analysis().0.warnings),
{
}

proof fn lemma_known_value(s: AnalyzerView, ctx: ContextView, fuel: int)
    requires
        ctx.value is Imm,
        fuel > 0,
    ensures
        s.compeval_context(ctx, fuel) == Ok::<_, StopView>(ctx),
{
    reveal(AnalyzerView::compeval_context);
    reveal(AnalyzerView::compeval_trivial_impl);
}

/// The sum of two known values of a type is evaluated to their sum, or reported as an overflow.
pub proof fn law_evaluated_sum(
    s: AnalyzerView,
    line: Span,
    lhs: ContextView,
    rhs: ContextView,
    a: ImmView,
    b: ImmView,
)
    requires
        lhs.value == ValueView::Imm(a),
        rhs.value == ValueView::Imm(b),
        lhs.taipe.remove_const() == rhs.taipe.remove_const(),
        a.can_calculate(b),
    ensures
        ({
            let taipe = lhs.taipe.remove_const();
            let sum = ContextView::make(
                false,
                taipe,
                ValueView::Add { line_info: line, lhs: Box::new(lhs), rhs: Box::new(rhs) },
            );
            s.compeval_trivial(sum) == match a.add(b) {
                Some(c) => Ok(ContextView::make(false, taipe, ValueView::Imm(c))),
                None => Err(
                    StopView::Errors(s.make_err("detected integer overflow"@, line)),
                ),
            }
        }),
{
    reveal(AnalyzerView::compeval_trivial);
    reveal(AnalyzerView::compeval_context);
    reveal(AnalyzerView::compeval_trivial_impl);
    reveal(AnalyzerView::compeval_pair);
    reveal(AnalyzerView::fold_arithmetic);
    reveal(AnalyzerView::fold_imm);
    let fuel: int = 0xffff_ffff_ffff_fffe;
    lemma_known_value(s, lhs, fuel);
    lemma_known_value(s, rhs, fuel);
    assert(s.compeval_pair(lhs, rhs, fuel) == Ok::<_, StopView>((lhs, rhs)));
    let taipe = lhs.taipe.remove_const();
    let value = ValueView::Add { line_info: line, lhs: Box::new(lhs), rhs: Box::new(rhs) };
    assert(s.compeval_trivial_impl(false, taipe, value, fuel + 1) == s.fold_arithmetic(
        TokenKind::Plus,
        line,
        lhs,
        rhs,
    ));
    assert(s.compeval_context(ContextView::make(false, taipe, value), fuel + 1)
        == s.compeval_trivial_impl(false, taipe, value, fuel + 1));
}

/// `and` and `or` are decided by their left operand where it can: the right operand is then not
/// evaluated, whatever it is.
pub proof fn law_short_circuit(
    s: AnalyzerView,
    line: Span,
    lhs: ContextView,
    rhs: ContextView,
    decisive: bool,
)
    requires
        lhs.taipe.is_bool(),
        rhs.taipe.is_bool(),
        lhs.value == ValueView::Imm(ImmView::Bool(decisive)),
    ensures
        ({
            let value = if decisive {
                ValueView::LogicOr { line_info: line, lhs: Box::new(lhs), rhs: Box::new(rhs) }
            } else {
                ValueView::LogicAnd { line_info: line, lhs: Box::new(lhs), rhs: Box::new(rhs) }
            };
            s.compeval_trivial(ContextView::make(false, TypeView::Bool, value)) == Ok::<
                _,
                StopView,
            >(ContextView::from_bool(decisive))
        }),
{
    reveal(AnalyzerView::compeval_trivial);
    reveal(AnalyzerView::compeval_context);
    reveal(AnalyzerView::compeval_trivial_impl);
    reveal(AnalyzerView::compeval_logic);
    reveal(AnalyzerView::truth_of);
    let fuel: int = 0xffff_ffff_ffff_fffe;
    lemma_known_value(s, lhs, fuel);
    assert(s.compeval_logic(decisive, line, lhs, rhs, fuel) == Ok::<_, StopView>(
        ContextView::from_bool(decisive),
    ));
    let value = if decisive {
        ValueView::LogicOr { line_info: line, lhs: Box::new(lhs), rhs: Box::new(rhs) }
    } else {
        ValueView::LogicAnd { line_info: line, lhs: Box::new(lhs), rhs: Box::new(rhs) }
    };
    assert(s.compeval_trivial_impl(false, TypeView::Bool, value, fuel + 1) == s.compeval_logic(
        decisive,
        line,
        lhs,
        rhs,
        fuel,
    ));
    assert(s.compeval_context(ContextView::make(false, TypeView::Bool, value), fuel + 1)
        == s.compeval_trivial_impl(false, TypeView::Bool, value, fuel + 1));
}

pub(crate) proof fn lemma_chain_not_empty(errs: ErrorView, other: ErrorView)
    ensures
        !errs.chain(other).is_empty(),
{
    let all = errs.chain(other);
    assert(all->Errors_0.len() > 0);
    assert(ErrorView::empty()->Errors_0.len() == 0);
}

proof fn lemma_defaults_taken(
    s: AnalyzerView,
    scope_id: ScopeIdView,
    params: TableView<ScopeIdView>,
    line: Span,
    taken: TableView<ArgInfoView>,
    errs: ErrorView,
    i: int,
)
    requires
        0 <= i,
        params.names.len() <= params.values.len(),
    ensures
        s.take_defaults(scope_id, params, line, taken, errs, i) matches Ok((all, reports)) ==> {
            &&& reports.is_empty() ==> errs.is_empty()
            &&& forall|name: Seq<char>| #[trigger] taken.has(name) ==> all.has(name)
            &&& reports.is_empty() ==> forall|k: int|
                i <= k < params.names.len() ==> all.has(#[trigger] params.names[k])
        },
    decreases params.values.len() - i,
{
    reveal(AnalyzerView::take_defaults);
    if i < params.values.len() {
        if let Some((name, _)) = nth_entry(params, i) {
            if let Ok(Some(param_id)) = s.find_child(scope_id, name) {
                if let Ok(param) = s.param_info(param_id) {
                    if taken.has(name) {
                        lemma_defaults_taken(s, scope_id, params, line, taken, errs, i + 1);
                    } else {
                        match param.default {
                            Some(value) => {
                                let arg = ArgInfoView {
                                    ctx: ContextView::make(true, param.taipe, value),
                                    line,
                                };
                                let more = entered(taken, name, arg);
                                assert(more.names[taken.names.len() as int] == name);
                                assert(more.has(name));
                                assert forall|other: Seq<char>| #[trigger]
                                    taken.has(other) implies more.has(other) by {
                                    let k = choose|k: int|
                                        0 <= k < taken.names.len() && taken.names[k] == other;
                                    assert(more.names[k] == other);
                                }
                                lemma_defaults_taken(s, scope_id, params, line, more, errs, i + 1);
                            },
                            None => {
                                let first = s.make_err(
                                    "value of argument '"@ + name + "' is not provided"@,
                                    line,
                                );
                                let second = s.make_note("declared here"@, param.line_info);
                                let more = errs.chain(first).chain(second);
                                lemma_chain_not_empty(errs.chain(first), second);
                                lemma_defaults_taken(s, scope_id, params, line, taken, more, i + 1);
                            },
                        }
                    }
                }
            }
        }
    }
}

/// A call that is accepted gives every parameter of the function a value.
pub proof fn law_call_fills_parameters(
    s: AnalyzerView,
    scope_id: ScopeIdView,
    taipe: TypeView,
    args: ArgsView,
    line: Span,
    k: int,
)
    ensures
        s.direct_call(scope_id, taipe, args, line) matches Ok(ctx) ==> {
            let params = s.function_info(scope_id)->Ok_0.param_table;
            &&& s.function_info(scope_id) is Ok
            &&& ctx.value matches ValueView::DirectCall { line_info, fun_scope_id, args: given }
            &&& line_info == line
            &&& fun_scope_id == scope_id
            &&& 0 <= k < params.names.len() && params.wf() ==> given.has(params.names[k])
        },
{
    reveal(AnalyzerView::direct_call);
    if let Ok(info) = s.function_info(scope_id) {
        let params = info.param_table;
        if let Some(count) = total_args(args) {
            let errs = s.count_errors(info, count, line);
            if let Ok((taken, errs)) = s.take_positional(
                params,
                args.pos,
                TableView::empty(),
                errs,
                0,
            ) {
                if let Ok((taken, errs)) = s.take_named(
                    scope_id,
                    params,
                    args.named,
                    taken,
                    errs,
                    0,
                ) {
                    if params.wf() {
                        lemma_defaults_taken(s, scope_id, params, line, taken, errs, 0);
                    }
                }
            }
        }
    }
}

proof fn lemma_reports_stay(
    s: AnalyzerView,
    scope_id: ScopeIdView,
    targets: Seq<int>,
    is_end: bool,
    declared: TableView<ControlInfoView>,
    visited: Seq<int>,
    errs: ErrorView,
    fuel: int,
    i: int,
)
    requires
        !errs.is_empty(),
    ensures
        s.traverse_edges(scope_id, targets, is_end, declared, visited, errs, fuel, i).1 matches Ok(
            (_, reports),
        ) ==> !reports.is_empty(),
    decreases targets.len() - i,
{
    reveal(AnalyzerView::traverse_edges);
    reveal(AnalyzerView::traverse_cfg_impl);
    if 0 <= i < targets.len() && !is_end {
        if holds_node(visited, targets[i]) {
            lemma_reports_stay(s, scope_id, targets, is_end, declared, visited, errs, fuel, i + 1);
        } else {
            let (t, r) = s.traverse_cfg_impl(scope_id, targets[i], visited, declared, fuel);
            if let Ok((seen, more)) = r {
                lemma_reports_stay(t, scope_id, targets, is_end, declared, seen, errs, fuel, i + 1);
                lemma_chain_not_empty(errs, more);
                lemma_reports_stay(
                    t,
                    scope_id,
                    targets,
                    is_end,
                    declared,
                    seen,
                    errs.chain(more),
                    fuel,
                    i + 1,
                );
            }
        }
    }
}

/// A variable that is used where it is declared and has no value yet is reported.
pub proof fn law_uninitialized_use_reported(
    s: AnalyzerView,
    scope_id: ScopeIdView,
    node_id: int,
    visited: Seq<int>,
    declared: TableView<ControlInfoView>,
    fuel: int,
    line: Span,
    var: ScopeIdView,
)
    requires
        s.block_vertex(scope_id, node_id) == Ok::<_, StopView>(
            ControlNodeView::Info(ControlInfoView::VarUsed { line_info: line, scope_id: var }),
        ),
        s.scope_path(var) matches Ok(path) && declared.find(path) matches Some(
            ControlInfoView::VarDeclared { .. },
        ),
    ensures
        s.traverse_cfg_impl(scope_id, node_id, visited, declared, fuel).1 matches Ok((_, reports))
            ==> !reports.is_empty(),
{
    reveal(AnalyzerView::traverse_cfg_impl);
    reveal(AnalyzerView::traverse_next);
    reveal(AnalyzerView::traverse_edges);
    reveal(AnalyzerView::scope_name);
    reveal(AnalyzerView::scope_line);
    if fuel > 0 {
        let seen = adding_node(visited, node_id);
        if let (Ok(name), Ok(place)) = (s.scope_name(var), s.scope_line(var)) {
            let errs = ErrorView::triple(
                ErrorView::empty(),
                s.make_err("'"@ + name + "' may be uninitialized"@, line),
                s.make_note("declared here"@, place),
            );
            assert(errs->Errors_0.len() == 3);
            assert(ErrorView::empty()->Errors_0.len() == 0);
            if let Ok(targets) = s.block_outgoing(scope_id, node_id) {
                lemma_reports_stay(s, scope_id, targets, false, declared, seen, errs, fuel - 1, 0);
            }
        }
    }
}

/// The type in which two operands meet: an integer literal takes the type of the other operand,
/// and two of them are of the type `int`.
pub open spec fn common_type(s: AnalyzerView, lhs: TypeView, rhs: TypeView) -> TypeView {
    if lhs.is_varint() && rhs.is_varint() {
        s.int_type()
    } else if lhs.is_varint() {
        rhs
    } else {
        lhs
    }
}

/// Whether a type is one that arithmetic works on.
pub open spec fn is_numeric(taipe: TypeView) -> bool {
    taipe.is_integer() || taipe.is_float()
}

/// Operands of arithmetic meet in their common type where one of them is an integer literal, and
/// stay as they are where none is.
pub proof fn law_operands_promoted(
    s: AnalyzerView,
    lhs: ContextView,
    left: Span,
    rhs: ContextView,
    right: Span,
)
    requires
        is_numeric(lhs.taipe),
        is_numeric(rhs.taipe),
    ensures
        s.resolve_value_promotion(lhs, left, rhs, right) matches Ok((l, r)) ==> {
            &&& lhs.taipe.is_varint() || rhs.taipe.is_varint() ==> l.taipe == common_type(
                s,
                lhs.taipe,
                rhs.taipe,
            ) && r.taipe == common_type(s, lhs.taipe, rhs.taipe)
            &&& !lhs.taipe.is_varint() ==> l == lhs
            &&& !rhs.taipe.is_varint() ==> r == rhs
        },
{
    reveal(AnalyzerView::resolve_value_promotion);
}

/// The result of an arithmetic or bitwise operator is of the common type of its operands, that of
/// a shift is of the type of what is shifted, and that of a comparison is a truth value. Integers
/// of the same type are accepted.
pub proof fn law_operator_result_type(
    s: AnalyzerView,
    op: TokenView,
    lhs: ContextView,
    left: Span,
    rhs: ContextView,
    right: Span,
    line: Span,
)
    ensures
        ({
            let r = s.binary_result(op, lhs, left, rhs, right, line);
            let arithmetic = op.kind == TokenKind::Plus || op.kind == TokenKind::Minus || op.kind
                == TokenKind::Star || op.kind == TokenKind::Slash || op.kind == TokenKind::Percent
                || op.kind == TokenKind::Ampersand || op.kind == TokenKind::Caret || op.kind
                == TokenKind::Pipe;
            let shift = op.kind == TokenKind::ShiftLeft || op.kind == TokenKind::ShiftRight;
            let relational = op.kind == TokenKind::LAngle || op.kind == TokenKind::LessEq || op.kind
                == TokenKind::EqEq || op.kind == TokenKind::NotEq || op.kind
                == TokenKind::GreaterEq || op.kind == TokenKind::RAngle;
            let same = lhs.taipe.is_integer() && !lhs.taipe.is_varint() && !rhs.taipe.is_varint()
                && lhs.taipe.remove_const() == rhs.taipe.remove_const();
            let common = common_type(s, lhs.taipe, rhs.taipe);
            let shifted = common_type(s, lhs.taipe, lhs.taipe);
            &&& arithmetic && same ==> r is Ok
            &&& arithmetic ==> (r matches Ok(ctx) ==> ctx.taipe == common.remove_const())
            &&& shift ==> (r matches Ok(ctx) ==> ctx.taipe == shifted.remove_const())
            &&& relational ==> (r matches Ok(ctx) ==> ctx.taipe == TypeView::Bool)
        }),
{
    reveal(AnalyzerView::binary_result);
    reveal(AnalyzerView::arithmetic_result);
    reveal(AnalyzerView::relational_result);
    reveal(AnalyzerView::binary_value);
    reveal(AnalyzerView::settle_shifted);
    if is_numeric(lhs.taipe) && is_numeric(rhs.taipe) {
        law_operands_promoted(s, lhs, left, rhs, right);
    }
    if !lhs.taipe.is_varint() && !rhs.taipe.is_varint() {
        reveal(AnalyzerView::resolve_value_promotion);
    }
}

/// What is assigned has the type that it is assigned to, whether the value was constant or not.
/// The first assignment to a constant makes its type constant.
pub proof fn law_assigned_type(
    s: AnalyzerView,
    lhs: TypeView,
    left: Span,
    rhs: ContextView,
    right: Span,
    first: bool,
)
    ensures
        s.resolve_implicit_cast(lhs, left, rhs, right, first) matches Ok(ctx) ==> !ctx.is_lvalue
            && ctx.taipe == if first {
            lhs.remove_const().add_const()
        } else {
            lhs
        },
        s.resolve_implicit_cast(
            lhs,
            left,
            ContextView::make(rhs.is_lvalue, rhs.taipe.add_const(), rhs.value),
            right,
            first,
        ) == s.resolve_implicit_cast(lhs, left, rhs, right, first),
{
    reveal(AnalyzerView::resolve_implicit_cast);
}

/// A value of the type that it is assigned to is assigned as it is, an array becomes a fat pointer
/// to its items, and a narrow integer becomes a wider one of the same sign.
pub proof fn law_assignment_accepted(
    s: AnalyzerView,
    lhs: TypeView,
    left: Span,
    rhs: ContextView,
    right: Span,
)
    ensures
        ({
            let value = ContextView::make(rhs.is_lvalue, rhs.taipe.remove_const(), rhs.value);
            let r = s.resolve_implicit_cast(lhs, left, rhs, right, false);
            &&& lhs == value.taipe && !(lhs is Const) && !(lhs is Void) && !(lhs is Noreturn)
                ==> r == Ok::<ContextView, StopView>(ContextView::make(false, lhs, rhs.value))
            &&& lhs.widens_from(value.taipe) ==> r == Ok::<ContextView, StopView>(
                ContextView::make(false, lhs, ValueView::Cast(Box::new(value))),
            )
            &&& lhs is Fat && value.taipe is Array && lhs->Fat_0 == value.taipe->Array_taipe
                ==> r == Ok::<ContextView, StopView>(
                ContextView::make(false, lhs, ValueView::Cast(Box::new(value))),
            )
        }),
{
    reveal(AnalyzerView::resolve_implicit_cast);
    reveal(AnalyzerView::implicit_value);
    reveal(AnalyzerView::same_type_value);
}

/// A pointer can be assigned to a pointer to the same type, unless that would allow to change a
/// constant through it.
pub proof fn law_pointer_assignment(
    s: AnalyzerView,
    lhs: TypeView,
    left: Span,
    rhs: ContextView,
    right: Span,
)
    requires
        lhs is Pointer,
        rhs.taipe.remove_const() is Pointer,
    ensures
        ({
            let target = *lhs->Pointer_0;
            let source = *rhs.taipe.remove_const()->Pointer_0;
            let r = s.resolve_implicit_cast(lhs, left, rhs, right, false);
            let accepted = target.remove_const() == source.remove_const() && (target.is_const()
                || !source.is_const());
            &&& accepted ==> r == Ok::<ContextView, StopView>(
                ContextView::make(false, lhs, rhs.value),
            )
            &&& !accepted ==> (r matches Err(StopView::Errors(_)))
        }),
{
    reveal(AnalyzerView::resolve_implicit_cast);
    reveal(AnalyzerView::implicit_value);
}

/// Nothing can be assigned to a constant but its first value, and no value is of the type `void`.
/// What does not return can be assigned to everything else.
pub proof fn law_assignment_refused(
    s: AnalyzerView,
    lhs: TypeView,
    left: Span,
    rhs: ContextView,
    right: Span,
    first: bool,
)
    ensures
        ({
            let to = if first {
                lhs.remove_const()
            } else {
                lhs
            };
            let r = s.resolve_implicit_cast(lhs, left, rhs, right, first);
            &&& !first && lhs is Const ==> (r matches Err(StopView::Errors(_)))
            &&& rhs.taipe.remove_const() is Void ==> r is Err
            &&& rhs.taipe.remove_const() is Noreturn ==> (r is Ok <==> !(to is Const) && !(
            to is Noreturn))
        }),
{
    reveal(AnalyzerView::resolve_implicit_cast);
    reveal(AnalyzerView::implicit_value);
    reveal(AnalyzerView::same_type_value);
}

/// What is declared with a second colon is constant, and what is declared with `=` is not.
pub proof fn law_declared_constants(
    s: AnalyzerView,
    lhs: Option<(TypeView, Span)>,
    mark: TokenView,
    rhs: Option<(ContextView, Span)>,
)
    ensures
        s.resolve_assign(lhs, Some(mark), rhs) matches Ok(ctx) ==> {
            &&& mark.kind == TokenKind::Colon ==> ctx.taipe.is_const()
            &&& mark.kind == TokenKind::Equal ==> !ctx.taipe.is_const()
        },
{
    reveal(AnalyzerView::resolve_assign);
    reveal(AnalyzerView::assign_value);
    reveal(AnalyzerView::resolve_implicit_cast);
}

/// Negation keeps the type of a signed integer or a floating point number, and flipping bits that
/// of an integer. Both give an integer literal the type `int`, and no other type is accepted.
pub proof fn law_unary_result_type(s: AnalyzerView, ctx: ContextView, line: Span)
    ensures
        ({
            let t = ctx.taipe.remove_const();
            let signed = t.int_kind() is Some && kind_signed(t.int_kind()->0);
            let minus = s.negate_result(ctx, line);
            let flip = s.flip_bits_result(ctx, line);
            &&& t is VarInt ==> (minus matches Ok(r) ==> r.taipe == s.int_type()) && (
            flip matches Ok(r) ==> r.taipe == s.int_type())
            &&& !(t is VarInt) ==> (minus is Ok <==> signed || t is Float32 || t is Float64)
            &&& !(t is VarInt) ==> (minus matches Ok(r) ==> r.taipe == t)
            &&& !(t is VarInt) ==> (flip is Ok <==> t.int_kind() is Some)
            &&& !(t is VarInt) ==> (flip matches Ok(r) ==> r.taipe == t)
        }),
{
    reveal(AnalyzerView::negate_result);
    reveal(AnalyzerView::flip_bits_result);
}

/// The address of a place is a pointer to it, which keeps what is constant constant, and to follow
/// it leads back to a place of the same type. An integer literal is a constant of the type `int`.
pub proof fn law_address_followed(s: AnalyzerView, ctx: ContextView, line: Span, deref: Span)
    ensures
        s.addr_of_result(ctx, line) matches Ok(address) ==> {
            let target = if ctx.taipe.is_varint() {
                s.int_type().add_const()
            } else {
                ctx.taipe
            };
            &&& ctx.is_lvalue || ctx.taipe.is_varint()
            &&& !address.is_lvalue
            &&& address.taipe == TypeView::Pointer(Box::new(target))
            &&& s.deref_result(address, deref) matches Ok(place)
            &&& place.is_lvalue && place.taipe == target
        },
        !ctx.is_lvalue && !ctx.taipe.is_varint() ==> s.addr_of_result(ctx, line) is Err,
{
    reveal(AnalyzerView::addr_of_result);
    reveal(AnalyzerView::deref_result);
}

/// Two types compare by `==` as being the same, and by `!=` as not being the same.
pub proof fn law_types_compared(
    s: AnalyzerView,
    op: TokenView,
    lhs: ContextView,
    rhs: ContextView,
    line: Span,
)
    requires
        lhs.taipe.remove_const() is Typedef,
        rhs.taipe.remove_const() is Typedef,
        lhs.value matches ValueView::Imm(ImmView::Type(_)),
        rhs.value matches ValueView::Imm(ImmView::Type(_)),
    ensures
        ({
            let same = lhs.value == rhs.value;
            let r = s.relational_result(op, lhs, rhs, line);
            &&& op.kind == TokenKind::EqEq ==> r == Ok::<ContextView, StopView>(
                ContextView::from_bool(same),
            )
            &&& op.kind == TokenKind::NotEq ==> r == Ok::<ContextView, StopView>(
                ContextView::from_bool(!same),
            )
        }),
{
    reveal(AnalyzerView::relational_result);
    reveal(AnalyzerView::is_comparable);
    reveal(AnalyzerView::type_value);
    reveal(AnalyzerView::types_compare);
}

} // verus!
