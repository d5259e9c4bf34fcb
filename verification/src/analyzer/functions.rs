use vstd::prelude::*;

use crate::ast;
use crate::analyzer::{
    group_analyzer, lemma_begin, Analyzer, AnalyzerView, ScopeEvalState, ScopeEvalStateView,
};
use crate::ast::{option_token_model, Stmt, StmtView};
use crate::common::{
    end_of, line_of, option_outcome, option_view, outcome, span_end, CompileError, ErrorView,
    LineInfo, Span, Stop, StopView,
};
use crate::context::{
    param_models, Context, ContextView, Param, ParamView, Type, TypeView, Value, ValueView,
};
use crate::scope::{
    FunctionInfo, FunctionInfoView, ParamInfo, ParamInfoView, Payload, PayloadView, ScopeId,
    ScopeIdView,
};
use crate::table::{entered, views, with_entry, Table, TableView};
use crate::text::join2;
use crate::token::{Token, TokenView};

verus! {

/// The parameters of a function, and how many of them have a default value.
pub struct ParamList {
    pub infos: Vec<ParamInfo>,
    pub defaults: usize,
}

/// The model of the parameters of a function.
pub struct ParamListView {
    pub infos: Seq<ParamInfoView>,
    pub defaults: usize,
}

impl View for ParamList {
    type V = ParamListView;

    open spec fn view(&self) -> ParamListView {
        ParamListView { infos: views(self.infos@), defaults: self.defaults }
    }
}

/// The parameters of a function that were declared, and their types.
pub struct DeclaredParams {
    pub table: Table<ScopeId>,
    pub types: Vec<Param>,
}

/// The model of the parameters of a function that were declared.
pub struct DeclaredParamsView {
    pub table: TableView<ScopeIdView>,
    pub types: Seq<ParamView>,
}

impl View for DeclaredParams {
    type V = DeclaredParamsView;

    open spec fn view(&self) -> DeclaredParamsView {
        DeclaredParamsView { table: self.table@, types: param_models(self.types@) }
    }
}

impl AnalyzerView {
    /// Visits a parameter of a function. One without a default value does not come after one with
    /// a default value.
    #[verifier::opaque]
    pub open spec fn visit_param(
        self,
        param: ast::ParamView,
        prev: Option<Span>,
        fuel: int,
    ) -> (AnalyzerView, Result<ParamInfoView, StopView>)
        decreases fuel, 6nat, 0int,
    {
        let s = self;
        match s.visit_type(param.taipe, fuel) { (s, Err(e)) => (s, Err(e)), (s, Ok(taipe)) => {
        match param.taipe.line() { Err(e) => (s, Err(e)), Ok(lhs_line) => {
        match param.line() { Err(e) => (s, Err(e)), Ok(line) => {
        match param.expr {
            Some(expr) => {
                match param.eq_token { None => {
                    (s, Err(StopView::Unsupported("probably some parser bug"@)))
                }, Some(token) => {
                match s.visit_expr(expr, fuel) { (s, Err(e)) => (s, Err(e)), (s, Ok(rhs)) => {
                match expr.line() { Err(e) => (s, Err(e)), Ok(rhs_line) => {
                match s.resolve_assign(
                    Some((taipe, lhs_line)),
                    Some(token),
                    Some((rhs, rhs_line)),
                ) { Err(e) => (s, Err(e)), Ok(ctx) => {
                (
                    s,
                    Ok(
                        ParamInfoView {
                            taipe: ctx.taipe,
                            default: Some(ctx.value),
                            line_info: line,
                        },
                    ),
                )
                }}}}}}}}
            },
            None => {
                match prev {
                    Some(default_line) => {
                        (
                            s,
                            Err(
                                StopView::Errors(
                                    ErrorView::pair(
                                        s.make_err(
                                            "non-default parameter is not allowed here"@,
                                            line,
                                        ),
                                        s.make_note(
                                            "previous default parameter is here"@,
                                            default_line,
                                        ),
                                    ),
                                ),
                            ),
                        )
                    },
                    None => {
                        match s.resolve_assign(Some((taipe, lhs_line)), None, None) {
                            Err(e) => (s, Err(e)), Ok(ctx) => {
                        (
                            s,
                            Ok(
                                ParamInfoView {
                                    taipe: ctx.taipe,
                                    default: Some(ctx.value),
                                    line_info: line,
                                },
                            ),
                        )
                        }}
                    },
                }
            },
        }
        }}}}}}
    }

    /// Visits the parameters of a function, those that were visited and the remaining ones.
    #[verifier::opaque]
    pub open spec fn visit_params(
        self,
        params: Seq<ast::ParamView>,
        infos: Seq<ParamInfoView>,
        prev: Option<Span>,
        count: usize,
        fuel: int,
        i: int,
    ) -> (AnalyzerView, Result<ParamListView, StopView>)
        decreases fuel, 7nat, params.len() - i,
    {
        let s = self;
        if i < 0 || i >= params.len() {
            (s, Ok(ParamListView { infos, defaults: count }))
        } else {
        match s.visit_param(params[i], prev, fuel) { (s, Err(e)) => (s, Err(e)), (s, Ok(info)) => {
        if params[i].expr.is_none() {
            s.visit_params(params, infos.push(info), prev, count, fuel, i + 1)
        } else {
        match count.checked_add(1) { None => {
            (s, Err(StopView::Unsupported("attempt to add with overflow"@)))
        }, Some(more) => {
        let line = info.line_info;
        s.visit_params(params, infos.push(info), Some(line), more, fuel, i + 1)
        }}}}}}
    }

    /// Declares the parameters of a function.
    #[verifier::opaque]
    pub open spec fn declare_params(
        self,
        params: Seq<ast::ParamView>,
        infos: Seq<ParamInfoView>,
        table: TableView<ScopeIdView>,
        types: Seq<ParamView>,
        i: int,
    ) -> (AnalyzerView, Result<DeclaredParamsView, StopView>)
        decreases infos.len() - i,
    {
        let s = self;
        if i < 0 || i >= infos.len() {
            (s, Ok(DeclaredParamsView { table, types }))
        } else {
        if i >= params.len() {
            (s, Err(StopView::Unsupported("probably some analyzer bug"@)))
        } else {
        match s.declare_param(infos[i], params[i].name) {
            (s, Err(e)) => (s, Err(e)), (s, Ok(id)) => {
        s.declare_params(
            params,
            infos,
            entered(table, params[i].name.text, id),
            types.push(ParamView { taipe: infos[i].taipe }),
            i + 1,
        )
        }}}}
    }

    /// The type that a function returns: nothing, unless one is written.
    #[verifier::opaque]
    pub open spec fn visit_result(
        self,
        result: Option<ast::TypeView>,
        fuel: int,
    ) -> (AnalyzerView, Result<TypeView, StopView>)
        decreases fuel, 6nat, 0int,
    {
        let s = self;
        match result {
            None => {
                (s, Ok(TypeView::Void))
            },
            Some(node) => {
                match s.visit_type(node, fuel) { (s, Err(e)) => (s, Err(e)), (s, Ok(taipe)) => {
                match s.validate_fun_ret_type(taipe, node) { Err(e) => (s, Err(e)), Ok(_) => {
                (s, Ok(taipe))
                }}}}
            },
        }
    }

    /// Where the type that a function returns is written, if it is.
    #[verifier::opaque]
    pub open spec fn result_line(
        self,
        result: Option<ast::TypeView>,
    ) -> Result<Option<Span>, StopView>
    {
        match result {
            None => {
                Ok(None)
            },
            Some(node) => {
                match node.line() { Err(e) => Err(e), Ok(line) => {
                Ok(Some(line))
                }}
            },
        }
    }

    /// Visits a function. Its parameters are visited before any of them is declared, so that
    /// default values do not refer to other parameters.
    #[verifier::opaque]
    pub open spec fn visit_fun(
        self,
        scope_id: ScopeIdView,
        lhs: Option<(TypeView, Span)>,
        eq_token: Option<TokenView>,
        line: Span,
        params: Seq<ast::ParamView>,
        result: Option<ast::TypeView>,
        body: Option<StmtView>,
        fuel: int,
    ) -> (AnalyzerView, Result<ScopeIdView, StopView>)
        decreases fuel, 8nat, 0int,
    {
        let s = self;
        match s.push_current_scope(scope_id) { (s, Err(e)) => (s, Err(e)), (s, Ok(_)) => {
        match s.visit_params(params, seq![], None, 0, fuel, 0) {
            (s, Err(e)) => (s, Err(e)), (s, Ok(list)) => {
        match s.declare_params(params, list.infos, TableView::empty(), seq![], 0) {
            (s, Err(e)) => (s, Err(e)), (s, Ok(declared)) => {
        match s.visit_result(result, fuel) { (s, Err(e)) => (s, Err(e)), (s, Ok(result_type)) => {
        let taipe = TypeView::Function { ret: Box::new(result_type), params: declared.types };
        let rhs = ContextView::make(true, taipe, ValueView::from_nil());
        match s.resolve_assign(lhs, eq_token, Some((rhs, line))) {
            Err(e) => (s, Err(e)), Ok(ignored) => {
        let s = s.set_scope_eval_state(scope_id, ScopeEvalStateView::Visited);
        match s.result_line(result) { Err(e) => (s, Err(e)), Ok(ret_line) => {
        let s = s.set_payload(
            scope_id,
            PayloadView::Function(
                FunctionInfoView {
                    taipe,
                    ctx: None,
                    param_table: declared.table,
                    default_param_count: list.defaults,
                    loop_stack: TableView::empty(),
                    ret_line_info: ret_line,
                },
            ),
        );
        match body {
            Some(stmt) => {
                match s.visit_fun_body(scope_id, result_type, ret_line, stmt, fuel) {
                    (s, Err(e)) => (s, Err(e)), (s, Ok(_)) => {
                let s = s.pop_current_scope();
                (s, Ok(scope_id))
                }}
            },
            None => {
                let s = s.pop_current_scope();
                (s, Ok(scope_id))
            },
        }
        }}}}}}}}}}}}
    }

    /// Visits the body of a function.
    #[verifier::opaque]
    pub open spec fn visit_fun_body(
        self,
        scope_id: ScopeIdView,
        result_type: TypeView,
        ret_line: Option<Span>,
        body: StmtView,
        fuel: int,
    ) -> (AnalyzerView, Result<(), StopView>)
        decreases fuel, 7nat, 0int,
    {
        let s = self;
        match s.visit_stmt(body, fuel) { (s, Err(e)) => (s, Err(e)), (s, Ok(ctx)) => {
        match s.body_value(scope_id, result_type, ret_line, ctx, body) {
            Err(e) => (s, Err(e)), Ok(value) => {
        s.set_function_body(scope_id, value)
        }}}}
    }

    /// The value of the body of a function, which has the type that the function returns.
    #[verifier::opaque]
    pub open spec fn body_value(
        self,
        scope_id: ScopeIdView,
        result_type: TypeView,
        ret_line: Option<Span>,
        ctx: ContextView,
        body: StmtView,
    ) -> Result<ContextView, StopView>
    {
        let s = self;
        if result_type.is_void() {
            if !ctx.taipe.is_void() && !ctx.taipe.is_noreturn() {
                match body.line() { Err(e) => Err(e), Ok(line) => {
                Err(
                    StopView::Errors(
                        s.make_err(
                            (
                                "expected value of type 'void' or 'noreturn' but got '"@
                                    + ctx.taipe.to_text()
                                    + "'"@
                            ),
                            line,
                        ),
                    ),
                )
                }}
            } else {
            Ok(ctx)
            }
        } else {
        if ctx.taipe.is_noreturn() {
            Ok(ctx)
        } else {
        match s.scope_line(scope_id) { Err(e) => Err(e), Ok(scope_line) => {
        if result_type.is_noreturn() {
            Err(
                StopView::Errors(
                    s.make_err(
                        "invalid function returns value: 'noreturn' function can never return"@,
                        scope_line,
                    ),
                ),
            )
        } else {
        match body.line() { Err(e) => Err(e), Ok(line) => {
        if ctx.taipe.is_void() {
            Err(
                StopView::Errors(
                    s.make_err("not all control paths return a value"@, span_end(line)),
                ),
            )
        } else {
        match ret_line {
            Some(written) => {
                s.resolve_assign(Some((result_type, written)), None, Some((ctx, line)))
            },
            None => {
                s.resolve_assign(Some((result_type, scope_line)), None, Some((ctx, line)))
            },
        }
        }}}}}}}}
    }
}

impl<'a> Analyzer<'a> {
    /// Visits a parameter of a function. One without a default value does not come after one with
    /// a default value.
    pub(crate) fn visit_param(
        &mut self,
        param: &'a ast::Param,
        prev: Option<LineInfo>,
        fuel: u64,
    ) -> (r: Result<ParamInfo, Stop>)
        requires
            old(self)@.wf(),
        ensures
            (final(self)@, outcome(r)) == old(self)@.visit_param(
                param@,
                option_view(prev),
                fuel as int,
            ),
            final(self)@.follows(old(self)@),
        decreases fuel, 6nat,
    {
        broadcast use group_analyzer;

        proof {
            lemma_begin(self@);
            reveal(AnalyzerView::visit_param);
            reveal(AnalyzerView::visit_expr);
            reveal(AnalyzerView::visit_type);
            reveal(Context::model);
            reveal(Value::model);
        }
        proof {
            ast::lemma_param_model(*param);
        }
        let taipe = match self.visit_type(&param.taipe, fuel) {
            Ok(v) => v,
            Err(e) => {
                return Err(e);
            },
        };
        let lhs_line = match line_of(&param.taipe) {
            Ok(v) => v,
            Err(e) => {
                return Err(e);
            },
        };
        let line = match line_of(param) {
            Ok(v) => v,
            Err(e) => {
                return Err(e);
            },
        };
        match &param.expr {
            Some(expr) => {
                let Some(token) = &param.eq_token else {
                    return Err(Stop::Unsupported("probably some parser bug".to_owned()));
                };
                let rhs = match self.visit_expr(expr, fuel) {
                    Ok(v) => v,
                    Err(e) => {
                        return Err(e);
                    },
                };
                let rhs_line = match line_of(expr) {
                    Ok(v) => v,
                    Err(e) => {
                        return Err(e);
                    },
                };
                let ctx = match self.resolve_assign(
                    Some((taipe, lhs_line)),
                    Some(token),
                    Some((rhs, rhs_line)),
                ) {
                    Ok(v) => v,
                    Err(e) => {
                        return Err(e);
                    },
                };
                Ok(ParamInfo { taipe: ctx.taipe, default: Some(ctx.value), line_info: line })
            },
            None => {
                match prev {
                    Some(default_line) => {
                        Err(
                            Stop::Errors(
                                CompileError::pair(
                                    self.make_err(
                                        "non-default parameter is not allowed here",
                                        line,
                                    ),
                                    self.make_note(
                                        "previous default parameter is here",
                                        default_line,
                                    ),
                                ),
                            ),
                        )
                    },
                    None => {
                        let ctx = match self.resolve_assign(Some((taipe, lhs_line)), None, None) {
                            Ok(v) => v,
                            Err(e) => {
                                return Err(e);
                            },
                        };
                        Ok(
                            ParamInfo {
                                taipe: ctx.taipe,
                                default: Some(ctx.value),
                                line_info: line,
                            },
                        )
                    },
                }
            },
        }
    }

    /// Visits the parameters of a function, those that were visited and the remaining ones.
    #[verifier::loop_isolation(false)]
    pub(crate) fn visit_params(
        &mut self,
        params: &'a Vec<ast::Param>,
        infos: Vec<ParamInfo>,
        prev: Option<LineInfo>,
        count: usize,
        fuel: u64,
    ) -> (r: Result<ParamList, Stop>)
        requires
            old(self)@.wf(),
        ensures
            (final(self)@, outcome(r)) == old(self)@.visit_params(
                ast::param_models(params@),
                views(infos@),
                option_view(prev),
                count,
                fuel as int,
                0,
            ),
            final(self)@.follows(old(self)@),
        decreases fuel, 7nat,
    {
        broadcast use group_analyzer;

        proof {
            lemma_begin(self@);
            reveal(AnalyzerView::visit_params);
            reveal(AnalyzerView::visit_param);
        }
        let ghost goal = self@.visit_params(
            ast::param_models(params@),
            views(infos@),
            option_view(prev),
            count,
            fuel as int,
            0,
        );
        let ghost begin = self@;
        let mut infos: Vec<ParamInfo> = infos;
        let mut prev: Option<LineInfo> = prev;
        let mut count: usize = count;
        let mut i: usize = 0;
        while i < params.len()
            invariant
                i <= params@.len(),
                goal == self@.visit_params(
                    ast::param_models(params@),
                    views(infos@),
                    option_view(prev),
                    count,
                    fuel as int,
                    i as int,
                ),
                self@.follows(begin),
                self@.comes_from(begin),
            decreases params@.len() - i,
        {
            proof {
                reveal(AnalyzerView::visit_params);
                reveal(AnalyzerView::visit_param);
            }
            proof {
                ast::lemma_param_model(params@[i as int]);
            }
            let info = match self.visit_param(&params[i], prev, fuel) {
                Ok(v) => v,
                Err(e) => {
                    return Err(e);
                },
            };
            if params[i].expr.is_none() {
                infos.push(info);
                i = i + 1;
                continue;
            }
            let Some(more) = count.checked_add(1) else {
                return Err(Stop::Unsupported("attempt to add with overflow".to_owned()));
            };
            let line = info.line_info;
            infos.push(info);
            prev = Some(line);
            count = more;
            i = i + 1;
        }
        Ok(ParamList { infos, defaults: count })
    }

    /// Declares the parameters of a function.
    #[verifier::loop_isolation(false)]
    pub(crate) fn declare_params(
        &mut self,
        params: &'a Vec<ast::Param>,
        infos: &Vec<ParamInfo>,
        table: Table<ScopeId>,
        types: Vec<Param>,
    ) -> (r: Result<DeclaredParams, Stop>)
        requires
            old(self)@.wf(),
        ensures
            (final(self)@, outcome(r)) == old(self)@.declare_params(
                ast::param_models(params@),
                views(infos@),
                table@,
                param_models(types@),
                0,
            ),
            final(self)@.follows(old(self)@),
            r is Ok ==> final(self)@.stack == old(self)@.stack,
    {
        broadcast use group_analyzer;

        proof {
            lemma_begin(self@);
            reveal(AnalyzerView::declare_params);
        }
        let ghost goal = self@.declare_params(
            ast::param_models(params@),
            views(infos@),
            table@,
            param_models(types@),
            0,
        );
        let ghost begin = self@;
        let mut table: Table<ScopeId> = table;
        let mut types: Vec<Param> = types;
        let mut i: usize = 0;
        while i < infos.len()
            invariant
                i <= infos@.len(),
                goal == self@.declare_params(
                    ast::param_models(params@),
                    views(infos@),
                    table@,
                    param_models(types@),
                    i as int,
                ),
                self@.follows(begin),
                self@.comes_from(begin),
                self@.stack == begin.stack,
            decreases infos@.len() - i,
        {
            proof {
                reveal(AnalyzerView::declare_params);
            }
            if i >= params.len() {
                return Err(Stop::Unsupported("probably some analyzer bug".to_owned()));
            }
            proof {
                ast::lemma_param_model(params@[i as int]);
            }
            let id = match self.declare_param(infos[i].copy(), &params[i].name) {
                Ok(v) => v,
                Err(e) => {
                    return Err(e);
                },
            };
            table = with_entry(table, params[i].name.text.clone(), id);
            types.push(Param { taipe: infos[i].taipe.copy() });
            i = i + 1;
        }
        Ok(DeclaredParams { table, types })
    }

    /// The type that a function returns: nothing, unless one is written.
    pub(crate) fn visit_result(
        &mut self,
        result: &'a Option<ast::Type>,
        fuel: u64,
    ) -> (r: Result<Type, Stop>)
        requires
            old(self)@.wf(),
        ensures
            (final(self)@, outcome(r)) == old(self)@.visit_result(
                option_view(*result),
                fuel as int,
            ),
            final(self)@.follows(old(self)@),
        decreases fuel, 6nat,
    {
        broadcast use group_analyzer;

        proof {
            lemma_begin(self@);
            reveal(AnalyzerView::visit_result);
            reveal(AnalyzerView::visit_type);
        }
        match result {
            None => {
                Ok(Type::Void)
            },
            Some(node) => {
                let taipe = match self.visit_type(node, fuel) {
                    Ok(v) => v,
                    Err(e) => {
                        return Err(e);
                    },
                };
                match self.validate_fun_ret_type(&taipe, node) {
                    Ok(_) => {},
                    Err(e) => {
                        return Err(e);
                    },
                }
                Ok(taipe)
            },
        }
    }

    /// Where the type that a function returns is written, if it is.
    pub(crate) fn result_line(
        &self,
        result: &Option<ast::Type>,
    ) -> (r: Result<Option<LineInfo>, Stop>)
        requires
            self@.wf(),
        ensures
            option_outcome(r) == self@.result_line(option_view(*result)),
    {
        broadcast use group_analyzer;

        proof {
            reveal(AnalyzerView::result_line);
        }
        match result {
            None => {
                Ok(None)
            },
            Some(node) => {
                let line = match line_of(node) {
                    Ok(v) => v,
                    Err(e) => {
                        return Err(e);
                    },
                };
                Ok(Some(line))
            },
        }
    }

    /// Visits a function. Its parameters are visited before any of them is declared, so that
    /// default values do not refer to other parameters.
    pub(crate) fn visit_fun(
        &mut self,
        scope_id: ScopeId,
        lhs: Option<(Type, LineInfo)>,
        eq_token: &Option<Token>,
        line: LineInfo,
        params: &'a Vec<ast::Param>,
        result: &'a Option<ast::Type>,
        body: &'a Option<Stmt>,
        fuel: u64,
    ) -> (r: Result<ScopeId, Stop>)
        requires
            old(self)@.wf(),
        ensures
            (final(self)@, outcome(r)) == old(self)@.visit_fun(
                scope_id@,
                option_view(lhs),
                option_token_model(*eq_token),
                line@,
                ast::param_models(params@),
                option_view(*result),
                option_view(*body),
                fuel as int,
            ),
            final(self)@.follows(old(self)@),
            r matches Ok(id) ==> id@ == scope_id@ && (0 <= id@.index < old(self)@.states.len()
                ==> final(self)@.is_visited(id@)),
        decreases fuel, 8nat,
    {
        broadcast use group_analyzer;

        proof {
            lemma_begin(self@);
            reveal(AnalyzerView::visit_fun);
            reveal(AnalyzerView::visit_fun_body);
            reveal(AnalyzerView::visit_params);
            reveal(AnalyzerView::visit_result);
            reveal(Context::model);
            reveal(Value::model);
        }
        match self.push_current_scope(&scope_id) {
            Ok(_) => {},
            Err(e) => {
                return Err(e);
            },
        }
        let list = match self.visit_params(params, Vec::new(), None, 0, fuel) {
            Ok(v) => v,
            Err(e) => {
                return Err(e);
            },
        };
        let declared = match self.declare_params(params, &list.infos, Table::empty(), Vec::new()) {
            Ok(v) => v,
            Err(e) => {
                return Err(e);
            },
        };
        let result_type = match self.visit_result(result, fuel) {
            Ok(v) => v,
            Err(e) => {
                return Err(e);
            },
        };
        let taipe = Type::Function { ret: Box::new(result_type.copy()), params: declared.types };
        let rhs = Context::make(true, taipe.copy(), Value::from_nil());
        let ignored = match self.resolve_assign(lhs, eq_token.as_ref(), Some((rhs, line))) {
            Ok(v) => v,
            Err(e) => {
                return Err(e);
            },
        };
        self.set_scope_eval_state(&scope_id, ScopeEvalState::Visited);
        proof {
            if 0 <= scope_id@.index < self@.states.len() {
                        assert(self@.is_visited(scope_id@));
                    }
        }
        let ret_line = match self.result_line(result) {
            Ok(v) => v,
            Err(e) => {
                return Err(e);
            },
        };
        self.set_payload(
            &scope_id,
            Payload::Function(
                FunctionInfo {
                    taipe,
                    ctx: None,
                    param_table: declared.table,
                    default_param_count: list.defaults,
                    loop_stack: Table::empty(),
                    ret_line_info: ret_line,
                },
            ),
        );
        match body {
            Some(stmt) => {
                match self.visit_fun_body(&scope_id, result_type, ret_line, stmt, fuel) {
                    Ok(_) => {},
                    Err(e) => {
                        return Err(e);
                    },
                }
                self.pop_current_scope();
                Ok(scope_id)
            },
            None => {
                self.pop_current_scope();
                Ok(scope_id)
            },
        }
    }

    /// Visits the body of a function.
    pub(crate) fn visit_fun_body(
        &mut self,
        scope_id: &ScopeId,
        result_type: Type,
        ret_line: Option<LineInfo>,
        body: &'a Stmt,
        fuel: u64,
    ) -> (r: Result<(), Stop>)
        requires
            old(self)@.wf(),
        ensures
            (final(self)@, outcome(r)) == old(self)@.visit_fun_body(
                scope_id@,
                result_type@,
                option_view(ret_line),
                body@,
                fuel as int,
            ),
            final(self)@.follows(old(self)@),
        decreases fuel, 7nat,
    {
        broadcast use group_analyzer;

        proof {
            lemma_begin(self@);
            reveal(AnalyzerView::visit_fun_body);
            reveal(AnalyzerView::visit_stmt);
        }
        let ctx = match self.visit_stmt(body, fuel) {
            Ok(v) => v,
            Err(e) => {
                return Err(e);
            },
        };
        let value = match self.body_value(scope_id, result_type, ret_line, ctx, body) {
            Ok(v) => v,
            Err(e) => {
                return Err(e);
            },
        };
        self.set_function_body(scope_id, value)
    }

    /// The value of the body of a function, which has the type that the function returns.
    pub(crate) fn body_value(
        &self,
        scope_id: &ScopeId,
        result_type: Type,
        ret_line: Option<LineInfo>,
        ctx: Context,
        body: &Stmt,
    ) -> (r: Result<Context, Stop>)
        requires
            self@.wf(),
        ensures
            outcome(r) == self@.body_value(
                scope_id@,
                result_type@,
                option_view(ret_line),
                ctx@,
                body@,
            ),
    {
        broadcast use group_analyzer;

        proof {
            reveal(AnalyzerView::body_value);
            reveal(Context::model);
            reveal(Value::model);
        }
        if result_type.is_void() {
            if !ctx.taipe.is_void() && !ctx.taipe.is_noreturn() {
                let line = match line_of(body) {
                    Ok(v) => v,
                    Err(e) => {
                        return Err(e);
                    },
                };
                return Err(
                    Stop::Errors(
                        self.make_err(
                            &join2(
                                &join2(
                                    "expected value of type 'void' or 'noreturn' but got '",
                                    &ctx.taipe.to_text(),
                                ),
                                "'",
                            ),
                            line,
                        ),
                    ),
                );
            }
            return Ok(ctx);
        }
        if ctx.taipe.is_noreturn() {
            return Ok(ctx);
        }
        let scope_line = match self.scope_line(scope_id) {
            Ok(v) => v,
            Err(e) => {
                return Err(e);
            },
        };
        if result_type.is_noreturn() {
            return Err(
                Stop::Errors(
                    self.make_err(
                        "invalid function returns value: 'noreturn' function can never return",
                        scope_line,
                    ),
                ),
            );
        }
        let line = match line_of(body) {
            Ok(v) => v,
            Err(e) => {
                return Err(e);
            },
        };
        if ctx.taipe.is_void() {
            return Err(
                Stop::Errors(self.make_err("not all control paths return a value", end_of(line))),
            );
        }
        match ret_line {
            Some(written) => {
                self.resolve_assign(Some((result_type, written)), None, Some((ctx, line)))
            },
            None => {
                self.resolve_assign(Some((result_type, scope_line)), None, Some((ctx, line)))
            },
        }
    }
}

} // verus!
