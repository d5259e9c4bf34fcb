use vstd::prelude::*;

use crate::analyzer::exprs::{only_contexts, ArgInfoView, ArgsView, NamedArgView};
use crate::analyzer::laws::lemma_chain_not_empty;
use crate::analyzer::AnalyzerView;
use crate::ast;
use crate::common::{ErrorView, Span, StopView};
use crate::context::{ContextView, TypeView, ValueView};
use crate::scope::ScopeIdView;
use crate::table::{entered, law_table_insert, TableView};

verus! {

/// Whether a parameter gets an argument: what is given to it is the argument, assigned to the type
/// of the parameter.
pub open spec fn is_given(
    s: AnalyzerView,
    param_id: ScopeIdView,
    arg: ContextView,
    line: Span,
    given: Option<ContextView>,
) -> bool {
    &&& s.param_info(param_id) matches Ok(param)
    &&& s.resolve_assign(
        Some((param.taipe, param.line_info)),
        None,
        Some((arg, line)),
    ) matches Ok(assigned)
    &&& given == Some(ContextView::make(true, assigned.taipe, assigned.value))
}

/// The context of an argument that may be there.
pub open spec fn taken_context(arg: Option<ArgInfoView>) -> Option<ContextView> {
    match arg {
        Some(info) => Some(info.ctx),
        None => None,
    }
}

proof fn lemma_kept<V>(table: TableView<V>, name: Seq<char>, value: V)
    requires
        table.wf(),
    ensures
        entered(table, name, value).wf(),
        entered(table, name, value).get(name) == Some(value),
        forall|other: Seq<char>|
            other != name ==> #[trigger] entered(table, name, value).get(other) == table.get(other),
{
    law_table_insert(table, name, value, name);
    assert forall|other: Seq<char>| other != name implies #[trigger] entered(
        table,
        name,
        value,
    ).get(other) == table.get(other) by {
        law_table_insert(table, name, value, other);
    }
}

proof fn lemma_positional(
    s: AnalyzerView,
    params: TableView<ScopeIdView>,
    pos: Seq<ArgInfoView>,
    taken: TableView<ArgInfoView>,
    errs: ErrorView,
    i: int,
)
    requires
        0 <= i <= pos.len(),
        params.wf(),
        taken.wf(),
    ensures
        s.take_positional(params, pos, taken, errs, i) matches Ok((all, reports)) ==> {
            &&& all.wf()
            &&& i < pos.len() ==> pos.len() <= params.names.len()
            &&& reports.is_empty() ==> errs.is_empty()
            &&& forall|k: int|
                0 <= k < i && k < params.names.len() ==> all.get(#[trigger] params.names[k])
                    == taken.get(params.names[k])
            &&& reports.is_empty() ==> forall|k: int|
                i <= k < pos.len() ==> is_given(
                    s,
                    params.values[k],
                    (#[trigger] pos[k]).ctx,
                    pos[k].line,
                    taken_context(all.get(params.names[k])),
                )
        },
    decreases pos.len() - i,
{
    reveal(AnalyzerView::take_positional);
    if i < pos.len() && i < params.names.len() {
        let name = params.names[i];
        if let Ok(param) = s.param_info(params.values[i]) {
            match s.resolve_assign(
                Some((param.taipe, param.line_info)),
                None,
                Some((pos[i].ctx, pos[i].line)),
            ) {
                Ok(ctx) => {
                    let info = ArgInfoView {
                        ctx: ContextView::make(true, ctx.taipe, ctx.value),
                        line: pos[i].line,
                    };
                    lemma_kept(taken, name, info);
                    lemma_positional(s, params, pos, entered(taken, name, info), errs, i + 1);
                    lemma_positional_names(s, params, pos, taken, errs, i, info);
                },
                Err(StopView::Errors(err)) => {
                    let info = ArgInfoView {
                        ctx: ContextView::make(true, param.taipe, ValueView::from_nil()),
                        line: pos[i].line,
                    };
                    lemma_kept(taken, name, info);
                    lemma_chain_not_empty(errs, err);
                    lemma_positional(
                        s,
                        params,
                        pos,
                        entered(taken, name, info),
                        errs.chain(err),
                        i + 1,
                    );
                    lemma_positional_names(s, params, pos, taken, errs, i, info);
                },
                Err(_) => {},
            }
        }
    }
}

proof fn lemma_positional_names(
    s: AnalyzerView,
    params: TableView<ScopeIdView>,
    pos: Seq<ArgInfoView>,
    taken: TableView<ArgInfoView>,
    errs: ErrorView,
    i: int,
    info: ArgInfoView,
)
    requires
        0 <= i < params.names.len(),
        params.wf(),
        taken.wf(),
    ensures
        forall|k: int|
            0 <= k < i ==> entered(taken, params.names[i], info).get(#[trigger] params.names[k])
                == taken.get(params.names[k]),
{
    lemma_kept(taken, params.names[i], info);
    assert forall|k: int| 0 <= k < i implies entered(taken, params.names[i], info).get(
        #[trigger] params.names[k],
    ) == taken.get(params.names[k]) by {
        assert(params.names[k] != params.names[i]);
    }
}

proof fn lemma_named(
    s: AnalyzerView,
    scope_id: ScopeIdView,
    params: TableView<ScopeIdView>,
    named: TableView<NamedArgView>,
    taken: TableView<ArgInfoView>,
    errs: ErrorView,
    i: int,
)
    requires
        0 <= i <= named.values.len(),
        named.wf(),
        taken.wf(),
    ensures
        s.take_named(scope_id, params, named, taken, errs, i) matches Ok((all, reports)) ==> {
            &&& all.wf()
            &&& reports.is_empty() ==> errs.is_empty()
            &&& forall|name: Seq<char>|
                (forall|k: int|
                    i <= k < named.names.len() ==> #[trigger] named.names[k] != name)
                    ==> #[trigger] all.get(name) == taken.get(name)
            &&& reports.is_empty() ==> forall|k: int|
                i <= k < named.names.len() ==> {
                    &&& taken.get(#[trigger] named.names[k]) is None
                    &&& s.find_child(scope_id, named.names[k]) matches Ok(Some(param_id))
                    &&& is_given(
                        s,
                        param_id,
                        named.values[k].ctx,
                        named.values[k].expr_line,
                        taken_context(all.get(named.names[k])),
                    )
                }
        },
    decreases named.values.len() - i,
{
    reveal(AnalyzerView::take_named);
    reveal(AnalyzerView::twice_given);
    if i < named.values.len() {
        let name = named.names[i];
        let arg = named.values[i];
        if let Ok(Some(param_id)) = s.find_child(scope_id, name) {
            if let Ok(param) = s.param_info(param_id) {
                let assigned = s.resolve_assign(
                    Some((param.taipe, param.line_info)),
                    None,
                    Some((arg.ctx, arg.expr_line)),
                );
                let (ctx, more) = match assigned {
                    Ok(ctx) => (
                        ContextView::make(true, ctx.taipe, ctx.value),
                        s.twice_given(taken, name, arg.line, errs),
                    ),
                    Err(StopView::Errors(err)) => (
                        ContextView::make(true, param.taipe, ValueView::from_nil()),
                        s.twice_given(taken, name, arg.line, errs.chain(err)),
                    ),
                    Err(_) => (arg.ctx, errs),
                };
                let info = ArgInfoView { ctx, line: arg.expr_line };
                let next = entered(taken, name, info);
                lemma_kept(taken, name, info);
                lemma_named(s, scope_id, params, named, next, more, i + 1);
                if let Err(StopView::Errors(err)) = assigned {
                    lemma_chain_not_empty(errs, err);
                    if let Some(previous) = taken.find(name) {
                        let first = errs.chain(err).chain(
                            s.make_err("duplicate named argument"@, arg.line),
                        );
                        lemma_chain_not_empty(
                            first,
                            s.make_note("previous positional argument is here"@, previous.line),
                        );
                    }
                } else if let Some(previous) = taken.find(name) {
                    let first = errs.chain(s.make_err("duplicate named argument"@, arg.line));
                    lemma_chain_not_empty(
                        first,
                        s.make_note("previous positional argument is here"@, previous.line),
                    );
                }
                if let Ok((all, reports)) = s.take_named(
                    scope_id,
                    params,
                    named,
                    next,
                    more,
                    i + 1,
                ) {
                    assert forall|k: int| i < k < named.names.len() implies taken.get(
                        #[trigger] named.names[k],
                    ) == next.get(named.names[k]) by {
                        assert(named.names[k] != named.names[i]);
                    }
                    assert(all.get(name) == next.get(name));
                    assert forall|other: Seq<char>|
                        (forall|k: int|
                            i <= k < named.names.len() ==> #[trigger] named.names[k]
                                != other) implies #[trigger] all.get(other) == taken.get(
                        other,
                    ) by {
                        assert(named.names[i] != other);
                        assert(all.get(other) == next.get(other));
                    }
                }
            }
        }
    }
}

proof fn lemma_defaults(
    s: AnalyzerView,
    scope_id: ScopeIdView,
    params: TableView<ScopeIdView>,
    line: Span,
    taken: TableView<ArgInfoView>,
    errs: ErrorView,
    i: int,
)
    requires
        0 <= i <= params.names.len(),
        params.wf(),
        taken.wf(),
    ensures
        s.take_defaults(scope_id, params, line, taken, errs, i) matches Ok((all, reports)) ==> {
            &&& all.wf()
            &&& reports.is_empty() ==> errs.is_empty()
            &&& forall|name: Seq<char>|
                taken.has(name) ==> #[trigger] all.get(name) == taken.get(name)
            &&& forall|k: int|
                0 <= k < i ==> all.get(#[trigger] params.names[k]) == taken.get(params.names[k])
            &&& reports.is_empty() ==> forall|k: int|
                i <= k < params.names.len() && !taken.has(#[trigger] params.names[k]) ==> {
                    &&& s.find_child(scope_id, params.names[k]) matches Ok(Some(param_id))
                    &&& s.param_info(param_id) matches Ok(param)
                    &&& param.default matches Some(value)
                    &&& taken_context(all.get(params.names[k])) == Some(
                        ContextView::make(true, param.taipe, value),
                    )
                }
        },
    decreases params.names.len() - i,
{
    reveal(AnalyzerView::take_defaults);
    if i < params.names.len() {
        let name = params.names[i];
        if let Ok(Some(param_id)) = s.find_child(scope_id, name) {
            if let Ok(param) = s.param_info(param_id) {
                if taken.has(name) {
                    lemma_defaults(s, scope_id, params, line, taken, errs, i + 1);
                } else if let Some(value) = param.default {
                    let info = ArgInfoView {
                        ctx: ContextView::make(true, param.taipe, value),
                        line,
                    };
                    let next = entered(taken, name, info);
                    lemma_kept(taken, name, info);
                    lemma_defaults(s, scope_id, params, line, next, errs, i + 1);
                    assert forall|other: Seq<char>| #[trigger] next.has(other) == (taken.has(other)
                        || other == name) by {
                        assert(next.names == taken.names.push(name));
                        assert(next.names[taken.names.len() as int] == name);
                        if taken.has(other) {
                            let k = choose|k: int|
                                0 <= k < taken.names.len() && taken.names[k] == other;
                            assert(next.names[k] == other);
                        }
                    }
                    assert forall|k: int| 0 <= k < params.names.len() && k != i implies next.get(
                        #[trigger] params.names[k],
                    ) == taken.get(params.names[k]) by {
                        assert(params.names[k] != params.names[i]);
                    }
                    if let Ok((all, reports)) = s.take_defaults(
                        scope_id,
                        params,
                        line,
                        next,
                        errs,
                        i + 1,
                    ) {
                        assert(all.get(name) == next.get(name));
                        assert forall|other: Seq<char>|
                            taken.has(other) implies #[trigger] all.get(other) == taken.get(
                            other,
                        ) by {
                            assert(next.has(other));
                        }
                    }
                } else {
                    let first = s.make_err(
                        "value of argument '"@ + name + "' is not provided"@,
                        line,
                    );
                    let second = s.make_note("declared here"@, param.line_info);
                    lemma_chain_not_empty(errs.chain(first), second);
                    lemma_defaults(
                        s,
                        scope_id,
                        params,
                        line,
                        taken,
                        errs.chain(first).chain(second),
                        i + 1,
                    );
                }
            }
        }
    }
}

proof fn lemma_only_contexts(table: TableView<ArgInfoView>, name: Seq<char>)
    requires
        table.wf(),
    ensures
        only_contexts(table).get(name) == taken_context(table.get(name)),
{
    let all = only_contexts(table);
    assert(all.names == table.names);
    if table.has(name) {
        let i = table.names.index_of(name);
        assert(0 <= i < table.names.len() && table.names[i] == name);
    }
}

/// A call that is accepted binds its arguments. The argument at a place goes to the parameter at
/// the same place, an argument with a name goes to the parameter of that name, which gets no
/// other one, and each argument is assigned to the type of its parameter. A parameter that gets
/// no argument has its default value. The call is of the function that was meant, and its type is
/// the result type of the function.
pub proof fn law_call_binds_arguments(
    s: AnalyzerView,
    scope_id: ScopeIdView,
    taipe: TypeView,
    args: ArgsView,
    line: Span,
    k: int,
)
    requires
        s.direct_call(scope_id, taipe, args, line) is Ok,
        s.function_info(scope_id)->Ok_0.param_table.wf(),
        args.named.wf(),
    ensures
        ({
            let ctx = s.direct_call(scope_id, taipe, args, line)->Ok_0;
            let params = s.function_info(scope_id)->Ok_0.param_table;
            let given = ctx.value->DirectCall_args;
            &&& ctx.value is DirectCall
            &&& ctx.value->DirectCall_fun_scope_id == scope_id
            &&& taipe is Function && ctx.taipe == *taipe->Function_ret
            &&& args.pos.len() <= params.names.len()
            &&& 0 <= k < args.pos.len() ==> is_given(
                s,
                params.values[k],
                args.pos[k].ctx,
                args.pos[k].line,
                given.get(params.names[k]),
            )
            &&& 0 <= k < args.named.names.len() ==> {
                &&& s.find_child(scope_id, args.named.names[k]) matches Ok(Some(param_id))
                &&& is_given(
                    s,
                    param_id,
                    args.named.values[k].ctx,
                    args.named.values[k].expr_line,
                    given.get(args.named.names[k]),
                )
            }
            &&& 0 <= k < args.named.names.len() ==> forall|j: int|
                0 <= j < args.pos.len() ==> #[trigger] params.names[j] != args.named.names[k]
            &&& (args.pos.len() <= k < params.names.len() && !args.named.has(params.names[k])) ==> {
                &&& s.find_child(scope_id, params.names[k]) matches Ok(Some(param_id))
                &&& s.param_info(param_id) matches Ok(param)
                &&& param.default matches Some(value)
                &&& given.get(params.names[k]) == Some(
                    ContextView::make(true, param.taipe, value),
                )
            }
        }),
{
    reveal(AnalyzerView::direct_call);
    let info = s.function_info(scope_id)->Ok_0;
    let params = info.param_table;
    let none = TableView::<ArgInfoView>::empty();
    let errs = s.count_errors(info, total_args_of(args), line);
    lemma_positional(s, params, args.pos, none, errs, 0);
    let (first, errs1) = s.take_positional(params, args.pos, none, errs, 0)->Ok_0;
    lemma_positional_outside(s, params, args.pos, none, errs, 0);
    lemma_named(s, scope_id, params, args.named, first, errs1, 0);
    let (second, errs2) = s.take_named(scope_id, params, args.named, first, errs1, 0)->Ok_0;
    lemma_defaults(s, scope_id, params, line, second, errs2, 0);
    let (third, errs3) = s.take_defaults(scope_id, params, line, second, errs2, 0)->Ok_0;
    assert(errs3.is_empty());
    if 0 <= k < args.pos.len() {
        let name = params.names[k];
        lemma_only_contexts(third, name);
        assert(is_given(
            s,
            params.values[k],
            args.pos[k].ctx,
            args.pos[k].line,
            taken_context(first.get(name)),
        ));
        assert(first.get(name) is Some);
        assert forall|j: int| 0 <= j < args.named.names.len() implies #[trigger] args.named.names[j]
            != name by {
            assert(first.get(args.named.names[j]) is None);
        }
        assert(second.get(name) == first.get(name));
        assert(second.has(name));
    }
    if 0 <= k < args.named.names.len() {
        let name = args.named.names[k];
        lemma_only_contexts(third, name);
        assert(first.get(name) is None);
        assert(second.get(name) is Some);
        assert(second.has(name));
        assert forall|j: int| 0 <= j < args.pos.len() implies #[trigger] params.names[j] != name by {
            assert(is_given(
                s,
                params.values[j],
                args.pos[j].ctx,
                args.pos[j].line,
                taken_context(first.get(params.names[j])),
            ));
        }
    }
    if args.pos.len() <= k < params.names.len() && !args.named.has(params.names[k]) {
        let name = params.names[k];
        lemma_only_contexts(third, name);
        assert forall|j: int| 0 <= j < args.named.names.len() implies #[trigger] args.named.names[j]
            != name by {
            assert(args.named.names.contains(args.named.names[j]));
        }
        assert(second.get(name) == first.get(name));
        assert(first.get(name) == none.get(name));
        if second.has(name) {
            let j = second.names.index_of(name);
            assert(second.names[j] == name);
            assert(second.get(name) is Some);
        }
    }
}

/// The number of arguments, where there are not more than can be counted.
spec fn total_args_of(args: ArgsView) -> usize {
    (args.pos.len() + args.named.values.len()) as usize
}

proof fn lemma_positional_outside(
    s: AnalyzerView,
    params: TableView<ScopeIdView>,
    pos: Seq<ArgInfoView>,
    taken: TableView<ArgInfoView>,
    errs: ErrorView,
    i: int,
)
    requires
        0 <= i <= pos.len(),
        params.wf(),
        taken.wf(),
    ensures
        s.take_positional(params, pos, taken, errs, i) matches Ok((all, _)) ==> forall|k: int|
            pos.len() <= k < params.names.len() ==> all.get(#[trigger] params.names[k])
                == taken.get(params.names[k]),
    decreases pos.len() - i,
{
    reveal(AnalyzerView::take_positional);
    if i < pos.len() && i < params.names.len() {
        let name = params.names[i];
        if let Ok(param) = s.param_info(params.values[i]) {
            let assigned = s.resolve_assign(
                Some((param.taipe, param.line_info)),
                None,
                Some((pos[i].ctx, pos[i].line)),
            );
            let (ctx, more) = match assigned {
                Ok(ctx) => (ContextView::make(true, ctx.taipe, ctx.value), errs),
                Err(StopView::Errors(err)) => (
                    ContextView::make(true, param.taipe, ValueView::from_nil()),
                    errs.chain(err),
                ),
                Err(_) => (pos[i].ctx, errs),
            };
            let info = ArgInfoView { ctx, line: pos[i].line };
            let next = entered(taken, name, info);
            lemma_kept(taken, name, info);
            lemma_positional_outside(s, params, pos, next, more, i + 1);
            assert forall|k: int| pos.len() <= k < params.names.len() implies next.get(
                #[trigger] params.names[k],
            ) == taken.get(params.names[k]) by {
                assert(params.names[k] != params.names[i]);
            }
        }
    }
}

/// The state after the expressions of the first arguments were visited in their order.
pub open spec fn after_args(
    s: AnalyzerView,
    args: Seq<ast::ArgView>,
    fuel: int,
    k: int,
) -> AnalyzerView
    decreases k,
{
    if k <= 0 {
        s
    } else {
        after_args(s, args, fuel, k - 1).visit_expr(args[k - 1].expr, fuel).0
    }
}

proof fn lemma_args_visited(
    s: AnalyzerView,
    begin: AnalyzerView,
    args: Seq<ast::ArgView>,
    pos: Seq<ArgInfoView>,
    named: TableView<NamedArgView>,
    prev: Option<Span>,
    fuel: int,
    i: int,
)
    requires
        0 <= i <= args.len(),
        s == after_args(begin, args, fuel, i),
        named.wf(),
        prev is None ==> pos.len() == i && named.names.len() == 0,
        pos.len() <= i,
        forall|k: int|
            0 <= k < pos.len() ==> (#[trigger] args[k]).name is None && after_args(
                begin,
                args,
                fuel,
                k,
            ).visit_expr(args[k].expr, fuel).1 == Ok::<_, StopView>(pos[k].ctx),
    ensures
        s.visit_args(args, pos, named, prev, fuel, i).1 matches Ok(all) ==> {
            &&& all.named.wf()
            &&& pos.len() <= all.pos.len() <= args.len()
            &&& forall|k: int|
                0 <= k < all.pos.len() ==> (#[trigger] args[k]).name is None && after_args(
                    begin,
                    args,
                    fuel,
                    k,
                ).visit_expr(args[k].expr, fuel).1 == Ok::<_, StopView>(all.pos[k].ctx)
            &&& forall|name: Seq<char>|
                named.has(name) ==> #[trigger] all.named.get(name) == named.get(name)
            &&& forall|k: int|
                i <= k < args.len() && (#[trigger] args[k]).name is None ==> k < all.pos.len()
            &&& forall|k: int|
                i <= k < args.len() && (#[trigger] args[k]).name is Some ==> {
                    &&& all.named.get(args[k].name->0.text) matches Some(arg)
                    &&& after_args(begin, args, fuel, k).visit_expr(args[k].expr, fuel).1 == Ok::<
                        _,
                        StopView,
                    >(arg.ctx)
                }
        },
    decreases args.len() - i,
{
    reveal(AnalyzerView::visit_args);
    reveal(AnalyzerView::visit_expr);
    if i < args.len() {
        let (t, r) = s.visit_expr(args[i].expr, fuel);
        assert(t == after_args(begin, args, fuel, i + 1));
        if let Ok(ctx) = r {
            match args[i].name {
                Some(name) => {
                    if named.find(name.text) is None {
                        if let Ok(line) = args[i].expr.line() {
                            let arg = NamedArgView {
                                ctx,
                                line: name.line_info,
                                expr_line: line,
                            };
                            let next = entered(named, name.text, arg);
                            lemma_kept(named, name.text, arg);
                            lemma_entered_has(named, name.text, arg);
                            lemma_args_visited(
                                t,
                                begin,
                                args,
                                pos,
                                next,
                                Some(name.line_info),
                                fuel,
                                i + 1,
                            );
                            if let Ok(all) = t.visit_args(
                                args,
                                pos,
                                next,
                                Some(name.line_info),
                                fuel,
                                i + 1,
                            ).1 {
                                assert(all.named.get(name.text) == next.get(name.text));
                                assert forall|other: Seq<char>|
                                    named.has(other) implies #[trigger] all.named.get(other)
                                    == named.get(other) by {
                                    assert(next.has(other));
                                    assert(other != name.text) by {
                                        if other == name.text {
                                            let k = named.names.index_of(other);
                                            assert(named.names[k] == other);
                                        }
                                    }
                                }
                            }
                        }
                    }
                },
                None => {
                    if prev is None {
                        if let Ok(line) = args[i].line() {
                            let info = ArgInfoView { ctx, line };
                            lemma_args_visited(
                                t,
                                begin,
                                args,
                                pos.push(info),
                                named,
                                None,
                                fuel,
                                i + 1,
                            );
                        }
                    }
                },
            }
        }
    }
}

proof fn lemma_entered_has<V>(table: TableView<V>, name: Seq<char>, value: V)
    ensures
        table.get(name) is None && table.wf() ==> entered(table, name, value).has(name),
        forall|other: Seq<char>| table.has(other) ==> #[trigger] entered(table, name, value).has(
            other,
        ),
{
    let next = entered(table, name, value);
    if !table.has(name) {
        assert(next.names[table.names.len() as int] == name);
    }
    assert forall|other: Seq<char>| table.has(other) implies #[trigger] next.has(other) by {
        let k = choose|k: int| 0 <= k < table.names.len() && table.names[k] == other;
        assert(next.names[k] == other);
    }
}

/// The arguments of a call are visited in their order. Those without a name come first and stay in
/// their order, and those with a name are found under it.
pub proof fn law_arguments_visited(s: AnalyzerView, args: Seq<ast::ArgView>, fuel: int, k: int)
    requires
        0 <= k < args.len(),
        s.visit_args(args, seq![], TableView::empty(), None, fuel, 0).1 is Ok,
    ensures
        ({
            let all = s.visit_args(args, seq![], TableView::empty(), None, fuel, 0).1->Ok_0;
            let visited = after_args(s, args, fuel, k).visit_expr(args[k].expr, fuel).1;
            &&& all.named.wf()
            &&& all.pos.len() <= args.len()
            &&& args[k].name is None <==> k < all.pos.len()
            &&& args[k].name is None ==> visited == Ok::<_, StopView>(all.pos[k].ctx)
            &&& args[k].name is Some ==> (all.named.get(args[k].name->0.text) matches Some(arg)
                && visited == Ok::<_, StopView>(arg.ctx))
        }),
{
    lemma_args_visited(s, s, args, seq![], TableView::empty(), None, fuel, 0);
}

} // verus!
