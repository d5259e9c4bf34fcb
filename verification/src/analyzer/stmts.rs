use vstd::prelude::*;

use crate::ast;
use crate::analyzer::{
    group_analyzer, lemma_begin, Analyzer, AnalyzerView, ScopeEvalState, ScopeEvalStateView,
};
use crate::analyzer::names::{names_after, with_names};
use crate::ast::{
    option_token_model, stmt_models, Decl, DeclView, Expr, ExprView, Object, ObjectView, Stmt,
    StmtView,
};
use crate::cfg::{ControlGraph, ControlNode, ControlNodeId, ControlNodeView, GraphView};
use crate::common::{
    line_of, option_view, outcome, span_from, texts, CompileError, ErrorView, LineInfo, Span,
    Stop, StopView,
};
use crate::context::{context_models, Context, ContextView, Type, TypeView, Value, ValueView};
use crate::scope::{
    BlockInfo, BlockInfoView, LoopInfo, LoopInfoView, Payload, PayloadView, ScopeId, ScopeIdView,
    ScopeKind,
};
use crate::table::{Table, TableView};
use crate::text::{count_decimal, count_text, join2};
use crate::token::{Token, TokenView};

verus! {

/// What came of the statements of a block: the last one that was visited in order.
pub struct BlockRun {
    pub is_lvalue: bool,
    pub taipe: Type,
    pub items: Vec<Context>,
    pub last: usize,
}

/// The model of what came of the statements of a block.
pub struct BlockRunView {
    pub is_lvalue: bool,
    pub taipe: TypeView,
    pub items: Seq<ContextView>,
    pub last: int,
}

impl View for BlockRun {
    type V = BlockRunView;

    open spec fn view(&self) -> BlockRunView {
        BlockRunView {
            is_lvalue: self.is_lvalue,
            taipe: self.taipe@,
            items: context_models(self.items@),
            last: self.last as int,
        }
    }
}

/// The control flow of a block in which nothing happens yet.
pub open spec fn fresh_block() -> BlockInfoView {
    let start = GraphView::new().with_vertex(ControlNodeView::Start);
    let nowhere = start.with_vertex(ControlNodeView::Unreachable);
    BlockInfoView {
        cfg: nowhere.with_vertex(ControlNodeView::End),
        cf_start: GraphView::new().place(ControlNodeView::Start),
        cf_end: nowhere.place(ControlNodeView::End),
        cf_last: GraphView::new().place(ControlNodeView::Start),
        cf_unreachable: start.place(ControlNodeView::Unreachable),
    }
}

/// The control flow of a block in which nothing happens yet.
fn new_block() -> (r: BlockInfo)
    ensures
        r@ == fresh_block(),
{
    let mut cfg: ControlGraph = ControlGraph::new();
    let cf_start: ControlNodeId = cfg.insert_vertex(ControlNode::Start);
    let cf_unreachable: ControlNodeId = cfg.insert_vertex(ControlNode::Unreachable);
    let cf_end: ControlNodeId = cfg.insert_vertex(ControlNode::End);
    BlockInfo { cfg, cf_start, cf_end, cf_last: cf_start, cf_unreachable }
}

/// The innermost loop, if there is one.
pub open spec fn innermost(loops: TableView<LoopInfoView>) -> Option<LoopInfoView> {
    if loops.values.len() > 0 {
        Some(loops.values.last())
    } else {
        None
    }
}

/// The innermost loop, if there is one.
fn last_loop(loops: &Table<LoopInfo>) -> (r: Option<LoopInfo>)
    ensures
        option_view(r) == innermost(loops@),
{
    if loops.values.len() > 0 {
        Some(loops.values[loops.values.len() - 1])
    } else {
        None
    }
}

/// The names of the loops.
pub open spec fn labels_only(loops: TableView<LoopInfoView>) -> Seq<Seq<char>> {
    names_after(seq![], loops)
}

/// The names of the loops.
fn labels_of(loops: &Table<LoopInfo>) -> (r: Vec<String>)
    ensures
        texts(r@) == labels_only(loops@),
{
    let empty: Vec<String> = Vec::new();
    assert(texts(empty@) =~= Seq::<Seq<char>>::empty());
    with_names(empty, loops)
}

/// The contexts with one for nothing at the end, if the block gives nothing.
pub open spec fn closed_items(items: Seq<ContextView>, taipe: TypeView) -> Seq<ContextView> {
    if taipe.is_void() {
        items.push(ContextView::from_void())
    } else {
        items
    }
}

/// The contexts with one for nothing at the end, if the block gives nothing.
fn close_items(items: Vec<Context>, taipe: &Type) -> (r: Vec<Context>)
    ensures
        context_models(r@) == closed_items(context_models(items@), taipe@),
{
    broadcast use group_analyzer;

    let mut all: Vec<Context> = items;
    if taipe.is_void() {
        all.push(Context::from_void());
    }
    all
}

/// The region of the statements from one on.
pub open spec fn stmts_span(stmts: Seq<StmtView>, from: int) -> Result<Span, StopView> {
    if from < 0 || from >= stmts.len() {
        Err(StopView::Unsupported("no line information"@))
    } else {
        match stmts[from].line() {
            Err(e) => Err(e),
            Ok(first) => match stmts.last().line() {
                Err(e) => Err(e),
                Ok(last) => Ok(span_from(first, last)),
            },
        }
    }
}

/// The region of the statements from one on.
fn stmts_line(stmts: &Vec<Stmt>, from: usize) -> (r: Result<LineInfo, Stop>)
    ensures
        outcome(r) == stmts_span(stmt_models(stmts@), from as int),
{
    broadcast use group_analyzer;

    if from >= stmts.len() {
        return Err(Stop::Unsupported("no line information".to_owned()));
    }
    assert(stmt_models(stmts@)[from as int] == stmts@[from as int]@);
    assert(stmt_models(stmts@)[stmts@.len() - 1] == stmts@[stmts@.len() - 1]@);
    match line_of(&stmts[from]) {
        Err(e) => Err(e),
        Ok(first) => match line_of(&stmts[stmts.len() - 1]) {
            Err(e) => Err(e),
            Ok(last) => Ok(LineInfo::from_range(&first, &last)),
        },
    }
}

/// The region of the statement before one.
pub open spec fn stmt_span_before(stmts: Seq<StmtView>, at: int) -> Result<Span, StopView> {
    if at < 1 || at > stmts.len() {
        Err(StopView::Unsupported("no line information"@))
    } else {
        stmts[at - 1].line()
    }
}

/// The region of the statement before one.
fn line_before(stmts: &Vec<Stmt>, at: usize) -> (r: Result<LineInfo, Stop>)
    ensures
        outcome(r) == stmt_span_before(stmt_models(stmts@), at as int),
{
    broadcast use group_analyzer;

    if at < 1 || at > stmts.len() {
        return Err(Stop::Unsupported("no line information".to_owned()));
    }
    assert(stmt_models(stmts@)[at - 1] == stmts@[at - 1]@);
    line_of(&stmts[at - 1])
}

/// The contexts with one more context.
pub open spec fn with_context(items: Seq<ContextView>, item: ContextView) -> Seq<ContextView> {
    items.push(item)
}

/// The contexts with one more context.
fn pushed(items: Vec<Context>, item: Context) -> (r: Vec<Context>)
    ensures
        context_models(r@) == with_context(context_models(items@), item@),
{
    broadcast use group_analyzer;

    let mut all: Vec<Context> = items;
    all.push(item);
    all
}

/// Whether two nodes are the same.
pub open spec fn equal_nodes(first: int, second: int) -> bool {
    first == second
}

/// Whether two nodes are the same.
fn same_node(first: ControlNodeId, second: ControlNodeId) -> (r: bool)
    ensures
        r == equal_nodes(first@, second@),
{
    first.0 == second.0
}

impl AnalyzerView {
    /// What a statement stands for.
    #[verifier::opaque]
    pub open spec fn visit_stmt(
        self,
        node: StmtView,
        fuel: int,
    ) -> (AnalyzerView, Result<ContextView, StopView>)
        decreases fuel, 5nat, 0int,
    {
        let s = self;
        if fuel <= 0 {
            (s, Err(StopView::Unsupported("nested too deeply"@)))
        } else {
        match node {
            StmtView::If { line_info: _, expr, then_body, else_body } => {
                match node.line() { Err(e) => (s, Err(e)), Ok(line) => {
                match else_body {
                    Some(other) => {
                        s.visit_if_else_stmt(expr, *then_body, *other, line, fuel - 1)
                    },
                    None => {
                        s.visit_if_stmt(expr, *then_body, line, fuel - 1)
                    },
                }
                }}
            },
            StmtView::While { line_info: _, label, expr, then_body } => {
                match node.line() { Err(e) => (s, Err(e)), Ok(line) => {
                s.visit_while_stmt(label, expr, *then_body, line, fuel - 1)
                }}
            },
            StmtView::Block { line_info, stmts } => {
                s.visit_block(line_info, stmts, fuel - 1)
            },
            StmtView::Yield { token: _, expr } => {
                match s.visit_expr(expr, fuel - 1) { (s, Err(e)) => (s, Err(e)), (s, Ok(ctx)) => {
                match s.settle_int(ctx, expr) { Err(e) => (s, Err(e)), Ok(ctx) => {
                match s.flow_last() { Err(e) => (s, Err(e)), Ok(last) => {
                match s.flow_end() { Err(e) => (s, Err(e)), Ok(end) => {
                match s.flow_edge(last, end) { (s, Err(e)) => (s, Err(e)), (s, Ok(_)) => {
                match s.flow_cut() { (s, Err(e)) => (s, Err(e)), (s, Ok(_)) => {
                (s, Ok(ctx))
                }}}}}}}}}}}}
            },
            StmtView::Continue { token, label } => {
                s.visit_continue(token, label)
            },
            StmtView::Break { token, label } => {
                s.visit_break(token, label)
            },
            StmtView::Return { token, expr } => {
                match expr {
                    Some(value) => {
                        s.visit_return(token, value, fuel - 1)
                    },
                    None => {
                        s.visit_return_void(token)
                    },
                }
            },
            StmtView::Decl(decl) => {
                match s.visit_decl(*decl, fuel - 1) {
                    (s, Err(e)) => (s, Err(e)), (s, Ok(ignored)) => {
                (s, Ok(ContextView::from_void()))
                }}
            },
            StmtView::Expr(expr) => {
                match s.visit_expr(*expr, fuel - 1) { (s, Err(e)) => (s, Err(e)), (s, Ok(ctx)) => {
                (s, Ok(ContextView::make(false, TypeView::Void, ValueView::Eval(Box::new(ctx)))))
                }}
            },
            StmtView::Nop(_) => {
                (s, Ok(ContextView::from_void()))
            },
        }
        }
    }

    /// The type that the current function returns, and where it is written.
    #[verifier::opaque]
    pub open spec fn return_target(
        self,
        token: TokenView,
    ) -> Result<(TypeView, Span), StopView>
    {
        let s = self;
        match s.get_current_function() { None => {
            Err(
                StopView::Errors(
                    s.make_err("'return' is allowed in functions only"@, token.line_info),
                ),
            )
        }, Some(id) => {
        match s.function_info(id) { Err(e) => Err(e), Ok(info) => {
        match s.scope_line(id) { Err(e) => Err(e), Ok(line) => {
        match info.get_return_type() { None => {
            Err(StopView::Unsupported("probably some analyzer bug"@))
        }, Some(result) => {
        if result.is_noreturn() {
            Err(
                StopView::Errors(
                    s.make_err("cannot return from a 'noreturn' function"@, token.line_info),
                ),
            )
        } else {
        match info.ret_line_info {
            Some(ret_line) => {
                Ok((result, ret_line))
            },
            None => {
                Ok((result, line))
            },
        }
        }}}}}}}}}
    }

    /// Lets the control flow of the current block return from the function.
    #[verifier::opaque]
    pub open spec fn flow_return(
        self,
    ) -> (AnalyzerView, Result<(), StopView>)
    {
        let s = self;
        match s.flow_vertex(ControlNodeView::Return) {
            (s, Err(e)) => (s, Err(e)), (s, Ok(node)) => {
        match s.flow_last() { Err(e) => (s, Err(e)), Ok(last) => {
        match s.flow_edge(last, node) { (s, Err(e)) => (s, Err(e)), (s, Ok(_)) => {
        match s.flow_cut() { (s, Err(e)) => (s, Err(e)), (s, Ok(_)) => {
        (s, Ok(()))
        }}}}}}}}
    }

    /// What returning a value stands for.
    #[verifier::opaque]
    pub open spec fn visit_return(
        self,
        token: TokenView,
        expr: ExprView,
        fuel: int,
    ) -> (AnalyzerView, Result<ContextView, StopView>)
        decreases fuel, 6nat, 0int,
    {
        let s = self;
        match s.return_target(token) { Err(e) => (s, Err(e)), Ok((result, ret_line)) => {
        if result.is_void() {
            match expr.line() { Err(e) => (s, Err(e)), Ok(line) => {
            (
                s,
                Err(
                    StopView::Errors(
                        ErrorView::pair(
                            s.make_err("invalid expression"@, line),
                            s.make_note(
                                ("function expects return type '"@ + result.to_text() + "'"@),
                                ret_line,
                            ),
                        ),
                    ),
                ),
            )
            }}
        } else {
        match s.visit_expr(expr, fuel) { (s, Err(e)) => (s, Err(e)), (s, Ok(rhs)) => {
        match s.flow_return() { (s, Err(e)) => (s, Err(e)), (s, Ok(_)) => {
        match expr.line() { Err(e) => (s, Err(e)), Ok(line) => {
        match s.resolve_assign(Some((result, ret_line)), None, Some((rhs, line))) {
            Err(e) => (s, Err(e)), Ok(ctx) => {
        (s, Ok(ContextView::make(false, TypeView::Noreturn, ValueView::Ret(Box::new(ctx)))))
        }}}}}}}}}}}
    }

    /// What returning without a value stands for.
    #[verifier::opaque]
    pub open spec fn visit_return_void(
        self,
        token: TokenView,
    ) -> (AnalyzerView, Result<ContextView, StopView>)
    {
        let s = self;
        match s.return_target(token) { Err(e) => (s, Err(e)), Ok((result, ret_line)) => {
        match s.flow_return() { (s, Err(e)) => (s, Err(e)), (s, Ok(_)) => {
        if !result.is_void() {
            (
                s,
                Err(
                    StopView::Errors(
                        ErrorView::pair(
                            s.make_err("expected <expression> for 'return'"@, token.line_info),
                            s.make_note(
                                ("function expects return type '"@ + result.to_text() + "'"@),
                                ret_line,
                            ),
                        ),
                    ),
                ),
            )
        } else {
        (s, Ok(ContextView::make(false, TypeView::Noreturn, ValueView::RetVoid)))
        }}}}}
    }

    /// The loop that a jump belongs to: that with the label, or the innermost one.
    #[verifier::opaque]
    pub open spec fn jump_loop(
        self,
        token: TokenView,
        label: Option<TokenView>,
    ) -> Result<LoopInfoView, StopView>
    {
        let s = self;
        match s.get_current_function() { None => {
            Err(StopView::Unsupported("not in a function"@))
        }, Some(id) => {
        match s.function_info(id) { Err(e) => Err(e), Ok(info) => {
        match label {
            Some(name) => {
                match info.loop_stack.find(name.text) {
                    Some(found) => {
                        Ok(found)
                    },
                    None => {
                        Err(
                            StopView::Errors(
                                ErrorView::pair(
                                    s.make_err(
                                        ("undefined loop label '"@ + name.text + "'"@),
                                        name.line_info,
                                    ),
                                    s.make_did_you_mean_help(
                                        name.text,
                                        labels_only(info.loop_stack),
                                    ),
                                ),
                            ),
                        )
                    },
                }
            },
            None => {
                match innermost(info.loop_stack) {
                    Some(found) => {
                        Ok(found)
                    },
                    None => {
                        Err(
                            StopView::Errors(
                                s.make_err(
                                    ("'"@ + token.text + "' can be used only in a loop"@),
                                    token.line_info,
                                ),
                            ),
                        )
                    },
                }
            },
        }
        }}}}
    }

    /// What leaving a loop, or going on with it, stands for.
    #[verifier::opaque]
    pub open spec fn visit_jump(
        self,
        token: TokenView,
        label: Option<TokenView>,
        is_break: bool,
    ) -> (AnalyzerView, Result<ContextView, StopView>)
    {
        let s = self;
        match s.jump_loop(token, label) { Err(e) => (s, Err(e)), Ok(info) => {
        let target = if is_break { info.cf_break } else { info.cf_continue };
        match s.flow_last() { Err(e) => (s, Err(e)), Ok(last) => {
        match s.flow_edge(last, target) { (s, Err(e)) => (s, Err(e)), (s, Ok(_)) => {
        match s.flow_cut() { (s, Err(e)) => (s, Err(e)), (s, Ok(_)) => {
        (s, Ok(ContextView::from_noreturn()))
        }}}}}}}}
    }

    /// What leaving a loop stands for.
    #[verifier::opaque]
    pub open spec fn visit_break(
        self,
        token: TokenView,
        label: Option<TokenView>,
    ) -> (AnalyzerView, Result<ContextView, StopView>)
    {
        let s = self;
        s.visit_jump(token, label, true)
    }

    /// What going on with a loop stands for.
    #[verifier::opaque]
    pub open spec fn visit_continue(
        self,
        token: TokenView,
        label: Option<TokenView>,
    ) -> (AnalyzerView, Result<ContextView, StopView>)
    {
        let s = self;
        s.visit_jump(token, label, false)
    }

    /// The name of a loop: its label, or one that no label can be.
    #[verifier::opaque]
    pub open spec fn loop_name(
        self,
        label: Option<TokenView>,
    ) -> (AnalyzerView, Result<Seq<char>, StopView>)
    {
        let s = self;
        match label {
            Some(name) => {
                (s, Ok(name.text))
            },
            None => {
                let (s, count) = s.next_loop();
                (s, Ok(("loop"@ + count_decimal(count) + "$"@)))
            },
        }
    }

    /// Checks that an expression is a condition.
    #[verifier::opaque]
    pub open spec fn visit_condition(
        self,
        expr: ExprView,
        fuel: int,
    ) -> (AnalyzerView, Result<ContextView, StopView>)
        decreases fuel, 6nat, 0int,
    {
        let s = self;
        match s.visit_expr(expr, fuel) { (s, Err(e)) => (s, Err(e)), (s, Ok(cond)) => {
        if !cond.taipe.is_bool() {
            match expr.line() { Err(e) => (s, Err(e)), Ok(line) => {
            (
                s,
                Err(
                    StopView::Errors(
                        s.make_err(
                            (
                                "expected value of type '__bool' but got value of type '"@
                                    + cond.to_text()
                                    + "'"@
                            ),
                            line,
                        ),
                    ),
                ),
            )
            }}
        } else {
        (s, Ok(cond))
        }}}
    }

    /// What a loop stands for.
    #[verifier::opaque]
    pub open spec fn visit_while_stmt(
        self,
        label: Option<TokenView>,
        expr: ExprView,
        then_body: StmtView,
        line: Span,
        fuel: int,
    ) -> (AnalyzerView, Result<ContextView, StopView>)
        decreases fuel, 7nat, 0int,
    {
        let s = self;
        match s.flow_vertex(ControlNodeView::Junction) {
            (s, Err(e)) => (s, Err(e)), (s, Ok(cf_break)) => {
        match s.flow_vertex(ControlNodeView::Junction) {
            (s, Err(e)) => (s, Err(e)), (s, Ok(cf_continue)) => {
        match s.flow_last() { Err(e) => (s, Err(e)), Ok(last) => {
        match s.flow_edge(last, cf_continue) { (s, Err(e)) => (s, Err(e)), (s, Ok(_)) => {
        match s.flow_set_last(cf_continue) { (s, Err(e)) => (s, Err(e)), (s, Ok(_)) => {
        match s.visit_condition(expr, fuel) { (s, Err(e)) => (s, Err(e)), (s, Ok(cond)) => {
        match s.flow_last() { Err(e) => (s, Err(e)), Ok(cf_cond) => {
        match s.loop_name(label) { (s, Err(e)) => (s, Err(e)), (s, Ok(name)) => {
        match s.push_loop(name, LoopInfoView { cf_break, cf_continue }) {
            (s, Err(e)) => (s, Err(e)), (s, Ok(_)) => {
        match s.visit_stmt(then_body, fuel) { (s, Err(e)) => (s, Err(e)), (s, Ok(body)) => {
        match s.flow_last() { Err(e) => (s, Err(e)), Ok(cf_end) => {
        match s.flow_edge(cf_end, cf_continue) { (s, Err(e)) => (s, Err(e)), (s, Ok(_)) => {
        match s.flow_edge(cf_cond, cf_break) { (s, Err(e)) => (s, Err(e)), (s, Ok(_)) => {
        match s.flow_set_last(cf_break) { (s, Err(e)) => (s, Err(e)), (s, Ok(_)) => {
        match s.pop_loop() { (s, Err(e)) => (s, Err(e)), (s, Ok(_)) => {
        if body.taipe.is_noreturn() || body.taipe.is_void() {
            (
                s,
                Ok(
                    ContextView::make(
                        false,
                        TypeView::Void,
                        ValueView::While {
                            line_info: line,
                            cond: Box::new(cond),
                            body_ctx: Box::new(body),
                        },
                    ),
                ),
            )
        } else {
        match then_body.line() { Err(e) => (s, Err(e)), Ok(body_line) => {
        (
            s,
            Err(
                StopView::Errors(
                    s.make_err(("expected 'void' but got '"@ + body.to_text() + "'"@), body_line),
                ),
            ),
        )
        }}}}}}}}}}}}}}}}}}}}}}}}}}}}}}}}}
    }

    /// Lets two ways of the control flow of the current block meet.
    #[verifier::opaque]
    pub open spec fn flow_join(
        self,
        first: int,
        second: int,
    ) -> (AnalyzerView, Result<(), StopView>)
    {
        let s = self;
        match s.flow_vertex(ControlNodeView::Junction) {
            (s, Err(e)) => (s, Err(e)), (s, Ok(node)) => {
        match s.flow_edge(first, node) { (s, Err(e)) => (s, Err(e)), (s, Ok(_)) => {
        match s.flow_edge(second, node) { (s, Err(e)) => (s, Err(e)), (s, Ok(_)) => {
        match s.flow_set_last(node) { (s, Err(e)) => (s, Err(e)), (s, Ok(_)) => {
        (s, Ok(()))
        }}}}}}}}
    }

    /// What a condition without an alternative stands for.
    #[verifier::opaque]
    pub open spec fn visit_if_stmt(
        self,
        expr: ExprView,
        then_body: StmtView,
        line: Span,
        fuel: int,
    ) -> (AnalyzerView, Result<ContextView, StopView>)
        decreases fuel, 7nat, 0int,
    {
        let s = self;
        match s.visit_condition(expr, fuel) { (s, Err(e)) => (s, Err(e)), (s, Ok(cond)) => {
        match s.flow_last() { Err(e) => (s, Err(e)), Ok(cf_cond) => {
        match s.visit_stmt(then_body, fuel) { (s, Err(e)) => (s, Err(e)), (s, Ok(then_ctx)) => {
        match s.flow_last() { Err(e) => (s, Err(e)), Ok(cf_then) => {
        match s.flow_join(cf_then, cf_cond) { (s, Err(e)) => (s, Err(e)), (s, Ok(_)) => {
        if then_ctx.taipe.is_void() || then_ctx.taipe.is_noreturn() {
            (
                s,
                Ok(
                    ContextView::make(
                        false,
                        TypeView::Void,
                        ValueView::IfElse {
                            line_info: line,
                            cond: Box::new(cond),
                            then_ctx: Box::new(then_ctx),
                            else_ctx: Box::new(ContextView::from_void()),
                        },
                    ),
                ),
            )
        } else {
        match then_body.line() { Err(e) => (s, Err(e)), Ok(body_line) => {
        (
            s,
            Err(
                StopView::Errors(
                    s.make_err(
                        ("expected 'void' but got '"@ + then_ctx.to_text() + "'"@),
                        body_line,
                    ),
                ),
            ),
        )
        }}}}}}}}}}}}}
    }

    /// What a condition with an alternative stands for.
    #[verifier::opaque]
    pub open spec fn visit_if_else_stmt(
        self,
        expr: ExprView,
        then_body: StmtView,
        else_body: StmtView,
        line: Span,
        fuel: int,
    ) -> (AnalyzerView, Result<ContextView, StopView>)
        decreases fuel, 7nat, 0int,
    {
        let s = self;
        match s.visit_condition(expr, fuel) { (s, Err(e)) => (s, Err(e)), (s, Ok(cond)) => {
        match s.flow_last() { Err(e) => (s, Err(e)), Ok(cf_cond) => {
        match s.visit_stmt(then_body, fuel) { (s, Err(e)) => (s, Err(e)), (s, Ok(then_ctx)) => {
        match s.flow_last() { Err(e) => (s, Err(e)), Ok(cf_then) => {
        match s.flow_set_last(cf_cond) { (s, Err(e)) => (s, Err(e)), (s, Ok(_)) => {
        match s.visit_stmt(else_body, fuel) { (s, Err(e)) => (s, Err(e)), (s, Ok(else_ctx)) => {
        match s.flow_last() { Err(e) => (s, Err(e)), Ok(cf_else) => {
        match s.flow_join(cf_then, cf_else) { (s, Err(e)) => (s, Err(e)), (s, Ok(_)) => {
        (s, s.if_result(cond, then_ctx, then_body, else_ctx, else_body, line))
        }}}}}}}}}}}}}}}}
    }

    /// The value of a condition: both ways have the same type, or one of them does not end.
    #[verifier::opaque]
    pub open spec fn if_result(
        self,
        cond: ContextView,
        then_ctx: ContextView,
        then_body: StmtView,
        else_ctx: ContextView,
        else_body: StmtView,
        line: Span,
    ) -> Result<ContextView, StopView>
    {
        let s = self;
        if then_ctx.taipe.is_noreturn() {
            let taipe = else_ctx.taipe;
            Ok(
                ContextView::make(
                    else_ctx.is_lvalue,
                    taipe,
                    ValueView::IfElse {
                        line_info: line,
                        cond: Box::new(cond),
                        then_ctx: Box::new(then_ctx),
                        else_ctx: Box::new(else_ctx),
                    },
                ),
            )
        } else {
            if else_ctx.taipe.is_noreturn() {
                let taipe = then_ctx.taipe;
                Ok(
                    ContextView::make(
                        then_ctx.is_lvalue,
                        taipe,
                        ValueView::IfElse {
                            line_info: line,
                            cond: Box::new(cond),
                            then_ctx: Box::new(then_ctx),
                            else_ctx: Box::new(else_ctx),
                        },
                    ),
                )
            } else {
                if then_ctx.taipe.same(else_ctx.taipe) {
                    let taipe = then_ctx.taipe;
                    Ok(
                        ContextView::make(
                            then_ctx.is_lvalue && else_ctx.is_lvalue,
                            taipe,
                            ValueView::IfElse {
                                line_info: line,
                                cond: Box::new(cond),
                                then_ctx: Box::new(then_ctx),
                                else_ctx: Box::new(else_ctx),
                            },
                        ),
                    )
                } else {
                    match else_body.line() { Err(e) => Err(e), Ok(else_line) => {
                    match then_body.line() { Err(e) => Err(e), Ok(then_line) => {
                    Err(
                        StopView::Errors(
                            ErrorView::pair(
                                s.make_err(
                                    (
                                        "expected '"@
                                            + then_ctx.to_text()
                                            + "' but got '"@
                                            + else_ctx.to_text()
                                            + "'"@
                                    ),
                                    else_line,
                                ),
                                s.make_note(
                                    "then body of if statement returns a different type"@,
                                    then_line,
                                ),
                            ),
                        ),
                    )
                    }}}}
                }
            }
        }
    }

    /// Adds a scope for a block to the current one.
    #[verifier::opaque]
    pub open spec fn create_block_scope(
        self,
        line: Span,
    ) -> (AnalyzerView, Result<ScopeIdView, StopView>)
    {
        let s = self;
        let (s, count) = s.next_block();
        let parent = s.current_id();
        let (s, id) = s.add_child_scope(
            parent,
            ScopeKind::Block,
            ("block"@ + count_decimal(count) + "$"@),
            ScopeEvalStateView::VisitInProgress,
            PayloadView::Block(fresh_block()),
            line,
        );
        (s, Ok(id))
    }

    /// Declares the functions, structs and unions of a block, so that they can be used before
    /// their declarations.
    #[verifier::opaque]
    pub open spec fn pre_declare_stmts(
        self,
        stmts: Seq<StmtView>,
        i: int,
    ) -> (AnalyzerView, Result<(), StopView>)
        decreases stmts.len() - i,
    {
        let s = self;
        if i < 0 || i >= stmts.len() {
            (s, Ok(()))
        } else {
        match stmts[i] {
            StmtView::Decl(decl) => {
                match *decl {
                    DeclView::Decl { name: _, taipe: _, eq_token: _, object: Some(object) } => {
                        match object {
                            ObjectView::ExternModule {
                                line_info: _,
                                value: _,
                            } | ObjectView::Module { line_info: _, decls: _ } => {
                                match (*decl).line() { Err(e) => (s, Err(e)), Ok(line) => {
                                (
                                    s,
                                    Err(
                                        StopView::Errors(
                                            s.make_err(
                                                "module declarations are not allowed in block scope"@,
                                                line,
                                            ),
                                        ),
                                    ),
                                )
                                }}
                            },
                            ObjectView::Fun {
                                line_info: _,
                                params: _,
                                ret: _,
                                body: _,
                            } | ObjectView::Compound { line_info: _, field: _ } => {
                                match s.pre_declare_decl(*decl) {
                                    (s, Err(e)) => (s, Err(e)), (s, Ok(ignored)) => {
                                s.pre_declare_stmts(stmts, i + 1)
                                }}
                            },
                            _ => {
                                s.pre_declare_stmts(stmts, i + 1)
                            },
                        }
                    },
                    _ => {
                        s.pre_declare_stmts(stmts, i + 1)
                    },
                }
            },
            _ => {
                s.pre_declare_stmts(stmts, i + 1)
            },
        }
        }
    }

    /// The context without the instruction that drops its value.
    #[verifier::opaque]
    pub open spec fn without_eval(
        self,
        ctx: ContextView,
    ) -> ContextView
    {
        match ctx.value {
            ValueView::Eval(inner) => {
                *inner
            },
            value => {
                ContextView::make(ctx.is_lvalue, ctx.taipe, value)
            },
        }
    }

    /// Visits the statements of a block in order, up to one that gives a value or does not end.
    #[verifier::opaque]
    pub open spec fn visit_stmts(
        self,
        stmts: Seq<StmtView>,
        is_lvalue: bool,
        taipe: TypeView,
        items: Seq<ContextView>,
        fuel: int,
        i: int,
    ) -> (AnalyzerView, Result<BlockRunView, StopView>)
        decreases fuel, 6nat, stmts.len() - i,
    {
        let s = self;
        if i < 0 || i >= stmts.len() {
            (s, Ok(BlockRunView { is_lvalue, taipe, items, last: i }))
        } else {
        match s.visit_stmt(stmts[i], fuel) { (s, Err(e)) => (s, Err(e)), (s, Ok(ctx)) => {
        let lvalue = ctx.is_lvalue;
        let result = ctx.taipe;
        let item = s.without_eval(ctx);
        if result.is_void() && !result.is_noreturn() {
            s.visit_stmts(stmts, lvalue, result, items.push(item), fuel, i + 1)
        } else {
        (
            s,
            Ok(
                BlockRunView {
                    is_lvalue: lvalue,
                    taipe: result,
                    items: with_context(items, item),
                    last: i + 1,
                },
            ),
        )
        }}}}
    }

    /// Visits the remaining statements of a block, which are never reached.
    #[verifier::opaque]
    pub open spec fn visit_rest(
        self,
        stmts: Seq<StmtView>,
        seen: int,
        fuel: int,
        i: int,
    ) -> (AnalyzerView, Result<(), StopView>)
        decreases fuel, 6nat, stmts.len() - i,
    {
        let s = self;
        if i < 0 || i >= stmts.len() {
            (s, Ok(()))
        } else {
        if i < seen {
            s.visit_rest(stmts, seen, fuel, i + 1)
        } else {
        match s.visit_stmt(stmts[i], fuel) { (s, Err(e)) => (s, Err(e)), (s, Ok(ignored)) => {
        s.visit_rest(stmts, seen, fuel, i + 1)
        }}}}
    }

    /// Lets the control flow of the current block reach its end.
    #[verifier::opaque]
    pub open spec fn flow_finish(
        self,
    ) -> (AnalyzerView, Result<(), StopView>)
    {
        let s = self;
        match s.flow_last() { Err(e) => (s, Err(e)), Ok(last) => {
        match s.flow_end() { Err(e) => (s, Err(e)), Ok(end) => {
        if equal_nodes(last, end) {
            (s, Ok(()))
        } else {
        match s.flow_edge(last, end) { (s, Err(e)) => (s, Err(e)), (s, Ok(_)) => {
        match s.flow_cut() { (s, Err(e)) => (s, Err(e)), (s, Ok(_)) => {
        (s, Ok(()))
        }}}}}}}}}
    }

    /// What a block stands for.
    #[verifier::opaque]
    pub open spec fn visit_block(
        self,
        line: Span,
        stmts: Seq<StmtView>,
        fuel: int,
    ) -> (AnalyzerView, Result<ContextView, StopView>)
        decreases fuel, 5nat, 0int,
    {
        let s = self;
        if fuel <= 0 {
            (s, Err(StopView::Unsupported("nested too deeply"@)))
        } else {
        match s.create_block_scope(line) { (s, Err(e)) => (s, Err(e)), (s, Ok(scope_id)) => {
        match s.push_current_scope(scope_id) { (s, Err(e)) => (s, Err(e)), (s, Ok(_)) => {
        match s.pre_declare_stmts(stmts, 0) { (s, Err(e)) => (s, Err(e)), (s, Ok(_)) => {
        match s.visit_stmts(stmts, false, TypeView::Void, seq![], fuel - 1, 0) {
            (s, Err(e)) => (s, Err(e)), (s, Ok(run)) => {
        match s.place_block(scope_id, stmts, run.last) { (s, Err(e)) => (s, Err(e)), (s, Ok(_)) => {
        match s.flow_finish() { (s, Err(e)) => (s, Err(e)), (s, Ok(_)) => {
        match s.visit_unreachable(stmts, run.last, fuel - 1) {
            (s, Err(e)) => (s, Err(e)), (s, Ok(_)) => {
        let s = s.pop_current_scope();
        match s.traverse_cfg(scope_id) { (s, Err(e)) => (s, Err(e)), (s, Ok(errs)) => {
        let s = if !errs.is_empty() {
            let s = s.save_error(errs);
            s
        } else {
            s
        };
        let s = s.set_scope_eval_state(scope_id, ScopeEvalStateView::Visited);
        let items = closed_items(run.items, run.taipe);
        (s, Ok(ContextView::make(run.is_lvalue, run.taipe.add_const(), ValueView::Block(items))))
        }}}}}}}}}}}}}}}}}
    }

    /// Gives a block the region of the last statement that was visited in order.
    #[verifier::opaque]
    pub open spec fn place_block(
        self,
        scope_id: ScopeIdView,
        stmts: Seq<StmtView>,
        last: int,
    ) -> (AnalyzerView, Result<(), StopView>)
    {
        let s = self;
        if stmts.len() == 0 {
            (s, Ok(()))
        } else {
        match stmt_span_before(stmts, last) { Err(e) => (s, Err(e)), Ok(line) => {
        let s = s.set_line_info(scope_id, line);
        (s, Ok(()))
        }}}
    }

    /// Visits the statements of a block that are never reached, and warns of them.
    #[verifier::opaque]
    pub open spec fn visit_unreachable(
        self,
        stmts: Seq<StmtView>,
        last: int,
        fuel: int,
    ) -> (AnalyzerView, Result<(), StopView>)
        decreases fuel, 7nat, 0int,
    {
        let s = self;
        if last >= stmts.len() {
            (s, Ok(()))
        } else {
        match s.visit_rest(stmts, last, fuel, 0) { (s, Err(e)) => (s, Err(e)), (s, Ok(_)) => {
        match stmts_span(stmts, last) { Err(e) => (s, Err(e)), Ok(line) => {
        let warning = s.make_warning("unreachable code"@, line);
        let s = s.warn(warning);
        (s, Ok(()))
        }}}}}
    }
}

impl<'a> Analyzer<'a> {
    /// What a statement stands for.
    pub(crate) fn visit_stmt(
        &mut self,
        node: &'a Stmt,
        fuel: u64,
    ) -> (r: Result<Context, Stop>)
        requires
            old(self)@.wf(),
        ensures
            (final(self)@, outcome(r)) == old(self)@.visit_stmt(node@, fuel as int),
            final(self)@.follows(old(self)@),
        decreases fuel, 5nat,
    {
        broadcast use group_analyzer;

        proof {
            lemma_begin(self@);
            reveal(AnalyzerView::visit_stmt);
            reveal(AnalyzerView::visit_block);
            reveal(AnalyzerView::visit_decl);
            reveal(AnalyzerView::visit_expr);
            reveal(AnalyzerView::visit_if_else_stmt);
            reveal(AnalyzerView::visit_if_stmt);
            reveal(AnalyzerView::visit_return);
            reveal(AnalyzerView::visit_while_stmt);
            reveal(Context::model);
            reveal(Value::model);
            reveal(ast::Stmt::model);
        }
        proof {
            reveal(ast::Decl::model);
        }
        if fuel == 0 {
            return Err(Stop::Unsupported("nested too deeply".to_owned()));
        }
        match node {
            Stmt::If { line_info: _, expr, then_body, else_body } => {
                let line = match line_of(node) {
                    Ok(v) => v,
                    Err(e) => {
                        return Err(e);
                    },
                };
                match else_body {
                    Some(other) => {
                        self.visit_if_else_stmt(expr, then_body, other, line, fuel - 1)
                    },
                    None => {
                        self.visit_if_stmt(expr, then_body, line, fuel - 1)
                    },
                }
            },
            Stmt::While { line_info: _, label, expr, then_body } => {
                let line = match line_of(node) {
                    Ok(v) => v,
                    Err(e) => {
                        return Err(e);
                    },
                };
                self.visit_while_stmt(label, expr, then_body, line, fuel - 1)
            },
            Stmt::Block { line_info, stmts } => {
                self.visit_block(*line_info, stmts, fuel - 1)
            },
            Stmt::Yield { token: _, expr } => {
                let ctx = match self.visit_expr(expr, fuel - 1) {
                    Ok(v) => v,
                    Err(e) => {
                        return Err(e);
                    },
                };
                let ctx = match self.settle_int(ctx, expr) {
                    Ok(v) => v,
                    Err(e) => {
                        return Err(e);
                    },
                };
                let last = match self.flow_last() {
                    Ok(v) => v,
                    Err(e) => {
                        return Err(e);
                    },
                };
                let end = match self.flow_end() {
                    Ok(v) => v,
                    Err(e) => {
                        return Err(e);
                    },
                };
                match self.flow_edge(last, end) {
                    Ok(_) => {},
                    Err(e) => {
                        return Err(e);
                    },
                }
                match self.flow_cut() {
                    Ok(_) => {},
                    Err(e) => {
                        return Err(e);
                    },
                }
                Ok(ctx)
            },
            Stmt::Continue { token, label } => {
                self.visit_continue(token, label)
            },
            Stmt::Break { token, label } => {
                self.visit_break(token, label)
            },
            Stmt::Return { token, expr } => {
                match expr {
                    Some(value) => {
                        self.visit_return(token, value, fuel - 1)
                    },
                    None => {
                        self.visit_return_void(token)
                    },
                }
            },
            Stmt::Decl(decl) => {
                let ignored = match self.visit_decl(decl, fuel - 1) {
                    Ok(v) => v,
                    Err(e) => {
                        return Err(e);
                    },
                };
                Ok(Context::from_void())
            },
            Stmt::Expr(expr) => {
                let ctx = match self.visit_expr(expr, fuel - 1) {
                    Ok(v) => v,
                    Err(e) => {
                        return Err(e);
                    },
                };
                Ok(Context::make(false, Type::Void, Value::Eval(Box::new(ctx))))
            },
            Stmt::Nop(_) => {
                Ok(Context::from_void())
            },
        }
    }

    /// The type that the current function returns, and where it is written.
    pub(crate) fn return_target(
        &self,
        token: &Token,
    ) -> (r: Result<(Type, LineInfo), Stop>)
        requires
            self@.wf(),
        ensures
            outcome(r) == self@.return_target(token@),
    {
        broadcast use group_analyzer;

        proof {
            reveal(AnalyzerView::return_target);
        }
        let Some(id) = self.get_current_function() else {
            return Err(
                Stop::Errors(
                    self.make_err("'return' is allowed in functions only", token.line_info),
                ),
            );
        };
        let info = match self.function_info(&id) {
            Ok(v) => v,
            Err(e) => {
                return Err(e);
            },
        };
        let line = match self.scope_line(&id) {
            Ok(v) => v,
            Err(e) => {
                return Err(e);
            },
        };
        let Some(result) = info.get_return_type() else {
            return Err(Stop::Unsupported("probably some analyzer bug".to_owned()));
        };
        if result.is_noreturn() {
            return Err(
                Stop::Errors(
                    self.make_err("cannot return from a 'noreturn' function", token.line_info),
                ),
            );
        }
        match info.ret_line_info {
            Some(ret_line) => {
                Ok((result.copy(), ret_line))
            },
            None => {
                Ok((result.copy(), line))
            },
        }
    }

    /// Lets the control flow of the current block return from the function.
    pub(crate) fn flow_return(
        &mut self,
    ) -> (r: Result<(), Stop>)
        requires
            old(self)@.wf(),
        ensures
            (final(self)@, outcome(r)) == old(self)@.flow_return(),
            final(self)@.follows(old(self)@),
            r is Ok ==> final(self)@.stack == old(self)@.stack,
    {
        broadcast use group_analyzer;

        proof {
            lemma_begin(self@);
            reveal(AnalyzerView::flow_return);
        }
        let node = match self.flow_vertex(ControlNode::Return) {
            Ok(v) => v,
            Err(e) => {
                return Err(e);
            },
        };
        let last = match self.flow_last() {
            Ok(v) => v,
            Err(e) => {
                return Err(e);
            },
        };
        match self.flow_edge(last, node) {
            Ok(_) => {},
            Err(e) => {
                return Err(e);
            },
        }
        match self.flow_cut() {
            Ok(_) => {},
            Err(e) => {
                return Err(e);
            },
        }
        Ok(())
    }

    /// What returning a value stands for.
    pub(crate) fn visit_return(
        &mut self,
        token: &Token,
        expr: &'a Expr,
        fuel: u64,
    ) -> (r: Result<Context, Stop>)
        requires
            old(self)@.wf(),
        ensures
            (final(self)@, outcome(r)) == old(self)@.visit_return(token@, expr@, fuel as int),
            final(self)@.follows(old(self)@),
        decreases fuel, 6nat,
    {
        broadcast use group_analyzer;

        proof {
            lemma_begin(self@);
            reveal(AnalyzerView::visit_return);
            reveal(AnalyzerView::visit_expr);
            reveal(Context::model);
            reveal(Value::model);
        }
        let (result, ret_line) = match self.return_target(token) {
            Ok(v) => v,
            Err(e) => {
                return Err(e);
            },
        };
        if result.is_void() {
            let line = match line_of(expr) {
                Ok(v) => v,
                Err(e) => {
                    return Err(e);
                },
            };
            return Err(
                Stop::Errors(
                    CompileError::pair(
                        self.make_err("invalid expression", line),
                        self.make_note(
                            &join2(
                                &join2("function expects return type '", &result.to_text()),
                                "'",
                            ),
                            ret_line,
                        ),
                    ),
                ),
            );
        }
        let rhs = match self.visit_expr(expr, fuel) {
            Ok(v) => v,
            Err(e) => {
                return Err(e);
            },
        };
        match self.flow_return() {
            Ok(_) => {},
            Err(e) => {
                return Err(e);
            },
        }
        let line = match line_of(expr) {
            Ok(v) => v,
            Err(e) => {
                return Err(e);
            },
        };
        let ctx = match self.resolve_assign(Some((result, ret_line)), None, Some((rhs, line))) {
            Ok(v) => v,
            Err(e) => {
                return Err(e);
            },
        };
        Ok(Context::make(false, Type::Noreturn, Value::Ret(Box::new(ctx))))
    }

    /// What returning without a value stands for.
    pub(crate) fn visit_return_void(
        &mut self,
        token: &Token,
    ) -> (r: Result<Context, Stop>)
        requires
            old(self)@.wf(),
        ensures
            (final(self)@, outcome(r)) == old(self)@.visit_return_void(token@),
            final(self)@.follows(old(self)@),
            r is Ok ==> final(self)@.stack == old(self)@.stack,
    {
        broadcast use group_analyzer;

        proof {
            lemma_begin(self@);
            reveal(AnalyzerView::visit_return_void);
            reveal(Context::model);
            reveal(Value::model);
        }
        let (result, ret_line) = match self.return_target(token) {
            Ok(v) => v,
            Err(e) => {
                return Err(e);
            },
        };
        match self.flow_return() {
            Ok(_) => {},
            Err(e) => {
                return Err(e);
            },
        }
        if !result.is_void() {
            return Err(
                Stop::Errors(
                    CompileError::pair(
                        self.make_err("expected <expression> for 'return'", token.line_info),
                        self.make_note(
                            &join2(
                                &join2("function expects return type '", &result.to_text()),
                                "'",
                            ),
                            ret_line,
                        ),
                    ),
                ),
            );
        }
        Ok(Context::make(false, Type::Noreturn, Value::RetVoid))
    }

    /// The loop that a jump belongs to: that with the label, or the innermost one.
    pub(crate) fn jump_loop(
        &self,
        token: &Token,
        label: &Option<Token>,
    ) -> (r: Result<LoopInfo, Stop>)
        requires
            self@.wf(),
        ensures
            outcome(r) == self@.jump_loop(token@, option_token_model(*label)),
    {
        broadcast use group_analyzer;

        proof {
            reveal(AnalyzerView::jump_loop);
        }
        let Some(id) = self.get_current_function() else {
            return Err(Stop::Unsupported("not in a function".to_owned()));
        };
        let info = match self.function_info(&id) {
            Ok(v) => v,
            Err(e) => {
                return Err(e);
            },
        };
        match label {
            Some(name) => {
                match info.loop_stack.find(&name.text) {
                    Some(found) => {
                        Ok(*found)
                    },
                    None => {
                        Err(
                            Stop::Errors(
                                CompileError::pair(
                                    self.make_err(
                                        &join2(&join2("undefined loop label '", &name.text), "'"),
                                        name.line_info,
                                    ),
                                    self.make_did_you_mean_help(
                                        &name.text,
                                        &labels_of(&info.loop_stack),
                                    ),
                                ),
                            ),
                        )
                    },
                }
            },
            None => {
                match last_loop(&info.loop_stack) {
                    Some(found) => {
                        Ok(found)
                    },
                    None => {
                        Err(
                            Stop::Errors(
                                self.make_err(
                                    &join2(
                                        &join2("'", &token.text),
                                        "' can be used only in a loop",
                                    ),
                                    token.line_info,
                                ),
                            ),
                        )
                    },
                }
            },
        }
    }

    /// What leaving a loop, or going on with it, stands for.
    pub(crate) fn visit_jump(
        &mut self,
        token: &Token,
        label: &Option<Token>,
        is_break: bool,
    ) -> (r: Result<Context, Stop>)
        requires
            old(self)@.wf(),
        ensures
            (final(self)@, outcome(r)) == old(self)@.visit_jump(
                token@,
                option_token_model(*label),
                is_break,
            ),
            final(self)@.follows(old(self)@),
            r is Ok ==> final(self)@.stack == old(self)@.stack,
    {
        broadcast use group_analyzer;

        proof {
            lemma_begin(self@);
            reveal(AnalyzerView::visit_jump);
        }
        let info = match self.jump_loop(token, label) {
            Ok(v) => v,
            Err(e) => {
                return Err(e);
            },
        };
        let target = if is_break { info.cf_break } else { info.cf_continue };
        let last = match self.flow_last() {
            Ok(v) => v,
            Err(e) => {
                return Err(e);
            },
        };
        match self.flow_edge(last, target) {
            Ok(_) => {},
            Err(e) => {
                return Err(e);
            },
        }
        match self.flow_cut() {
            Ok(_) => {},
            Err(e) => {
                return Err(e);
            },
        }
        Ok(Context::from_noreturn())
    }

    /// What leaving a loop stands for.
    pub(crate) fn visit_break(
        &mut self,
        token: &Token,
        label: &Option<Token>,
    ) -> (r: Result<Context, Stop>)
        requires
            old(self)@.wf(),
        ensures
            (final(self)@, outcome(r)) == old(self)@.visit_break(
                token@,
                option_token_model(*label),
            ),
            final(self)@.follows(old(self)@),
            r is Ok ==> final(self)@.stack == old(self)@.stack,
    {
        broadcast use group_analyzer;

        proof {
            lemma_begin(self@);
            reveal(AnalyzerView::visit_break);
        }
        self.visit_jump(token, label, true)
    }

    /// What going on with a loop stands for.
    pub(crate) fn visit_continue(
        &mut self,
        token: &Token,
        label: &Option<Token>,
    ) -> (r: Result<Context, Stop>)
        requires
            old(self)@.wf(),
        ensures
            (final(self)@, outcome(r)) == old(self)@.visit_continue(
                token@,
                option_token_model(*label),
            ),
            final(self)@.follows(old(self)@),
            r is Ok ==> final(self)@.stack == old(self)@.stack,
    {
        broadcast use group_analyzer;

        proof {
            lemma_begin(self@);
            reveal(AnalyzerView::visit_continue);
        }
        self.visit_jump(token, label, false)
    }

    /// The name of a loop: its label, or one that no label can be.
    pub(crate) fn loop_name(
        &mut self,
        label: &Option<Token>,
    ) -> (r: Result<String, Stop>)
        requires
            old(self)@.wf(),
        ensures
            (final(self)@, outcome(r)) == old(self)@.loop_name(option_token_model(*label)),
            final(self)@.follows(old(self)@),
            r is Ok ==> final(self)@.stack == old(self)@.stack,
    {
        broadcast use group_analyzer;

        proof {
            lemma_begin(self@);
            reveal(AnalyzerView::loop_name);
        }
        match label {
            Some(name) => {
                Ok(name.text.clone())
            },
            None => {
                let count: u64 = self.next_loop();
                Ok(join2(&join2("loop", &count_text(count)), "$"))
            },
        }
    }

    /// Checks that an expression is a condition.
    pub(crate) fn visit_condition(
        &mut self,
        expr: &'a Expr,
        fuel: u64,
    ) -> (r: Result<Context, Stop>)
        requires
            old(self)@.wf(),
        ensures
            (final(self)@, outcome(r)) == old(self)@.visit_condition(expr@, fuel as int),
            final(self)@.follows(old(self)@),
        decreases fuel, 6nat,
    {
        broadcast use group_analyzer;

        proof {
            lemma_begin(self@);
            reveal(AnalyzerView::visit_condition);
            reveal(AnalyzerView::visit_expr);
            reveal(Context::model);
            reveal(Value::model);
        }
        let cond = match self.visit_expr(expr, fuel) {
            Ok(v) => v,
            Err(e) => {
                return Err(e);
            },
        };
        if !cond.taipe.is_bool() {
            let line = match line_of(expr) {
                Ok(v) => v,
                Err(e) => {
                    return Err(e);
                },
            };
            return Err(
                Stop::Errors(
                    self.make_err(
                        &join2(
                            &join2(
                                "expected value of type '__bool' but got value of type '",
                                &cond.to_text(),
                            ),
                            "'",
                        ),
                        line,
                    ),
                ),
            );
        }
        Ok(cond)
    }

    /// What a loop stands for.
    pub(crate) fn visit_while_stmt(
        &mut self,
        label: &Option<Token>,
        expr: &'a Expr,
        then_body: &'a Stmt,
        line: LineInfo,
        fuel: u64,
    ) -> (r: Result<Context, Stop>)
        requires
            old(self)@.wf(),
        ensures
            (final(self)@, outcome(r)) == old(self)@.visit_while_stmt(
                option_token_model(*label),
                expr@,
                then_body@,
                line@,
                fuel as int,
            ),
            final(self)@.follows(old(self)@),
        decreases fuel, 7nat,
    {
        broadcast use group_analyzer;

        proof {
            lemma_begin(self@);
            reveal(AnalyzerView::visit_while_stmt);
            reveal(AnalyzerView::visit_condition);
            reveal(AnalyzerView::visit_stmt);
            reveal(Context::model);
            reveal(Value::model);
        }
        let cf_break = match self.flow_vertex(ControlNode::Junction) {
            Ok(v) => v,
            Err(e) => {
                return Err(e);
            },
        };
        let cf_continue = match self.flow_vertex(ControlNode::Junction) {
            Ok(v) => v,
            Err(e) => {
                return Err(e);
            },
        };
        let last = match self.flow_last() {
            Ok(v) => v,
            Err(e) => {
                return Err(e);
            },
        };
        match self.flow_edge(last, cf_continue) {
            Ok(_) => {},
            Err(e) => {
                return Err(e);
            },
        }
        match self.flow_set_last(cf_continue) {
            Ok(_) => {},
            Err(e) => {
                return Err(e);
            },
        }
        let cond = match self.visit_condition(expr, fuel) {
            Ok(v) => v,
            Err(e) => {
                return Err(e);
            },
        };
        let cf_cond = match self.flow_last() {
            Ok(v) => v,
            Err(e) => {
                return Err(e);
            },
        };
        let name = match self.loop_name(label) {
            Ok(v) => v,
            Err(e) => {
                return Err(e);
            },
        };
        match self.push_loop(name, LoopInfo { cf_break, cf_continue }) {
            Ok(_) => {},
            Err(e) => {
                return Err(e);
            },
        }
        let body = match self.visit_stmt(then_body, fuel) {
            Ok(v) => v,
            Err(e) => {
                return Err(e);
            },
        };
        let cf_end = match self.flow_last() {
            Ok(v) => v,
            Err(e) => {
                return Err(e);
            },
        };
        match self.flow_edge(cf_end, cf_continue) {
            Ok(_) => {},
            Err(e) => {
                return Err(e);
            },
        }
        match self.flow_edge(cf_cond, cf_break) {
            Ok(_) => {},
            Err(e) => {
                return Err(e);
            },
        }
        match self.flow_set_last(cf_break) {
            Ok(_) => {},
            Err(e) => {
                return Err(e);
            },
        }
        match self.pop_loop() {
            Ok(_) => {},
            Err(e) => {
                return Err(e);
            },
        }
        if body.taipe.is_noreturn() || body.taipe.is_void() {
            return Ok(
                Context::make(
                    false,
                    Type::Void,
                    Value::While {
                        line_info: line,
                        cond: Box::new(cond),
                        body_ctx: Box::new(body),
                    },
                ),
            );
        }
        let body_line = match line_of(then_body) {
            Ok(v) => v,
            Err(e) => {
                return Err(e);
            },
        };
        Err(
            Stop::Errors(
                self.make_err(
                    &join2(&join2("expected 'void' but got '", &body.to_text()), "'"),
                    body_line,
                ),
            ),
        )
    }

    /// Lets two ways of the control flow of the current block meet.
    pub(crate) fn flow_join(
        &mut self,
        first: ControlNodeId,
        second: ControlNodeId,
    ) -> (r: Result<(), Stop>)
        requires
            old(self)@.wf(),
        ensures
            (final(self)@, outcome(r)) == old(self)@.flow_join(first@, second@),
            final(self)@.follows(old(self)@),
            r is Ok ==> final(self)@.stack == old(self)@.stack,
    {
        broadcast use group_analyzer;

        proof {
            lemma_begin(self@);
            reveal(AnalyzerView::flow_join);
        }
        let node = match self.flow_vertex(ControlNode::Junction) {
            Ok(v) => v,
            Err(e) => {
                return Err(e);
            },
        };
        match self.flow_edge(first, node) {
            Ok(_) => {},
            Err(e) => {
                return Err(e);
            },
        }
        match self.flow_edge(second, node) {
            Ok(_) => {},
            Err(e) => {
                return Err(e);
            },
        }
        match self.flow_set_last(node) {
            Ok(_) => {},
            Err(e) => {
                return Err(e);
            },
        }
        Ok(())
    }

    /// What a condition without an alternative stands for.
    pub(crate) fn visit_if_stmt(
        &mut self,
        expr: &'a Expr,
        then_body: &'a Stmt,
        line: LineInfo,
        fuel: u64,
    ) -> (r: Result<Context, Stop>)
        requires
            old(self)@.wf(),
        ensures
            (final(self)@, outcome(r)) == old(self)@.visit_if_stmt(
                expr@,
                then_body@,
                line@,
                fuel as int,
            ),
            final(self)@.follows(old(self)@),
        decreases fuel, 7nat,
    {
        broadcast use group_analyzer;

        proof {
            lemma_begin(self@);
            reveal(AnalyzerView::visit_if_stmt);
            reveal(AnalyzerView::visit_condition);
            reveal(AnalyzerView::visit_stmt);
            reveal(Context::model);
            reveal(Value::model);
        }
        let cond = match self.visit_condition(expr, fuel) {
            Ok(v) => v,
            Err(e) => {
                return Err(e);
            },
        };
        let cf_cond = match self.flow_last() {
            Ok(v) => v,
            Err(e) => {
                return Err(e);
            },
        };
        let then_ctx = match self.visit_stmt(then_body, fuel) {
            Ok(v) => v,
            Err(e) => {
                return Err(e);
            },
        };
        let cf_then = match self.flow_last() {
            Ok(v) => v,
            Err(e) => {
                return Err(e);
            },
        };
        match self.flow_join(cf_then, cf_cond) {
            Ok(_) => {},
            Err(e) => {
                return Err(e);
            },
        }
        if then_ctx.taipe.is_void() || then_ctx.taipe.is_noreturn() {
            return Ok(
                Context::make(
                    false,
                    Type::Void,
                    Value::IfElse {
                        line_info: line,
                        cond: Box::new(cond),
                        then_ctx: Box::new(then_ctx),
                        else_ctx: Box::new(Context::from_void()),
                    },
                ),
            );
        }
        let body_line = match line_of(then_body) {
            Ok(v) => v,
            Err(e) => {
                return Err(e);
            },
        };
        Err(
            Stop::Errors(
                self.make_err(
                    &join2(&join2("expected 'void' but got '", &then_ctx.to_text()), "'"),
                    body_line,
                ),
            ),
        )
    }

    /// What a condition with an alternative stands for.
    pub(crate) fn visit_if_else_stmt(
        &mut self,
        expr: &'a Expr,
        then_body: &'a Stmt,
        else_body: &'a Stmt,
        line: LineInfo,
        fuel: u64,
    ) -> (r: Result<Context, Stop>)
        requires
            old(self)@.wf(),
        ensures
            (final(self)@, outcome(r)) == old(self)@.visit_if_else_stmt(
                expr@,
                then_body@,
                else_body@,
                line@,
                fuel as int,
            ),
            final(self)@.follows(old(self)@),
        decreases fuel, 7nat,
    {
        broadcast use group_analyzer;

        proof {
            lemma_begin(self@);
            reveal(AnalyzerView::visit_if_else_stmt);
            reveal(AnalyzerView::visit_condition);
            reveal(AnalyzerView::visit_stmt);
        }
        let cond = match self.visit_condition(expr, fuel) {
            Ok(v) => v,
            Err(e) => {
                return Err(e);
            },
        };
        let cf_cond = match self.flow_last() {
            Ok(v) => v,
            Err(e) => {
                return Err(e);
            },
        };
        let then_ctx = match self.visit_stmt(then_body, fuel) {
            Ok(v) => v,
            Err(e) => {
                return Err(e);
            },
        };
        let cf_then = match self.flow_last() {
            Ok(v) => v,
            Err(e) => {
                return Err(e);
            },
        };
        match self.flow_set_last(cf_cond) {
            Ok(_) => {},
            Err(e) => {
                return Err(e);
            },
        }
        let else_ctx = match self.visit_stmt(else_body, fuel) {
            Ok(v) => v,
            Err(e) => {
                return Err(e);
            },
        };
        let cf_else = match self.flow_last() {
            Ok(v) => v,
            Err(e) => {
                return Err(e);
            },
        };
        match self.flow_join(cf_then, cf_else) {
            Ok(_) => {},
            Err(e) => {
                return Err(e);
            },
        }
        self.if_result(cond, then_ctx, then_body, else_ctx, else_body, line)
    }

    /// The value of a condition: both ways have the same type, or one of them does not end.
    pub(crate) fn if_result(
        &self,
        cond: Context,
        then_ctx: Context,
        then_body: &Stmt,
        else_ctx: Context,
        else_body: &Stmt,
        line: LineInfo,
    ) -> (r: Result<Context, Stop>)
        requires
            self@.wf(),
        ensures
            outcome(r) == self@.if_result(
                cond@,
                then_ctx@,
                then_body@,
                else_ctx@,
                else_body@,
                line@,
            ),
    {
        broadcast use group_analyzer;

        proof {
            reveal(AnalyzerView::if_result);
            reveal(Context::model);
            reveal(Value::model);
        }
        if then_ctx.taipe.is_noreturn() {
            let taipe = else_ctx.taipe.copy();
            Ok(
                Context::make(
                    else_ctx.is_lvalue,
                    taipe,
                    Value::IfElse {
                        line_info: line,
                        cond: Box::new(cond),
                        then_ctx: Box::new(then_ctx),
                        else_ctx: Box::new(else_ctx),
                    },
                ),
            )
        } else if else_ctx.taipe.is_noreturn() {
            let taipe = then_ctx.taipe.copy();
            Ok(
                Context::make(
                    then_ctx.is_lvalue,
                    taipe,
                    Value::IfElse {
                        line_info: line,
                        cond: Box::new(cond),
                        then_ctx: Box::new(then_ctx),
                        else_ctx: Box::new(else_ctx),
                    },
                ),
            )
        } else if then_ctx.taipe.same(&else_ctx.taipe) {
            let taipe = then_ctx.taipe.copy();
            Ok(
                Context::make(
                    then_ctx.is_lvalue && else_ctx.is_lvalue,
                    taipe,
                    Value::IfElse {
                        line_info: line,
                        cond: Box::new(cond),
                        then_ctx: Box::new(then_ctx),
                        else_ctx: Box::new(else_ctx),
                    },
                ),
            )
        } else {
            let else_line = match line_of(else_body) {
                Ok(v) => v,
                Err(e) => {
                    return Err(e);
                },
            };
            let then_line = match line_of(then_body) {
                Ok(v) => v,
                Err(e) => {
                    return Err(e);
                },
            };
            Err(
                Stop::Errors(
                    CompileError::pair(
                        self.make_err(
                            &join2(
                                &join2(
                                    &join2(
                                        &join2("expected '", &then_ctx.to_text()),
                                        "' but got '",
                                    ),
                                    &else_ctx.to_text(),
                                ),
                                "'",
                            ),
                            else_line,
                        ),
                        self.make_note(
                            "then body of if statement returns a different type",
                            then_line,
                        ),
                    ),
                ),
            )
        }
    }

    /// Adds a scope for a block to the current one.
    pub(crate) fn create_block_scope(
        &mut self,
        line: LineInfo,
    ) -> (r: Result<ScopeId, Stop>)
        requires
            old(self)@.wf(),
        ensures
            (final(self)@, outcome(r)) == old(self)@.create_block_scope(line@),
            final(self)@.follows(old(self)@),
            r is Ok ==> final(self)@.stack == old(self)@.stack,
    {
        broadcast use group_analyzer;

        proof {
            lemma_begin(self@);
            reveal(AnalyzerView::create_block_scope);
        }
        let count: u64 = self.next_block();
        let parent = self.current_id();
        let id = self.add_child_scope(
            &parent,
            ScopeKind::Block,
            &join2(&join2("block", &count_text(count)), "$"),
            ScopeEvalState::VisitInProgress,
            Payload::Block(new_block()),
            line,
        );
        Ok(id)
    }

    /// Declares the functions, structs and unions of a block, so that they can be used before
    /// their declarations.
    #[verifier::loop_isolation(false)]
    pub(crate) fn pre_declare_stmts(
        &mut self,
        stmts: &'a Vec<Stmt>,
    ) -> (r: Result<(), Stop>)
        requires
            old(self)@.wf(),
        ensures
            (final(self)@, outcome(r)) == old(self)@.pre_declare_stmts(stmt_models(stmts@), 0),
            final(self)@.follows(old(self)@),
            r is Ok ==> final(self)@.stack == old(self)@.stack,
    {
        broadcast use group_analyzer;

        proof {
            lemma_begin(self@);
            reveal(AnalyzerView::pre_declare_stmts);
            reveal(ast::Stmt::model);
            reveal(ast::Decl::model);
            reveal(ast::Object::model);
        }
        let ghost goal = self@.pre_declare_stmts(stmt_models(stmts@), 0);
        let ghost begin = self@;
        let mut i: usize = 0;
        while i < stmts.len()
            invariant
                i <= stmts@.len(),
                goal == self@.pre_declare_stmts(stmt_models(stmts@), i as int),
                self@.follows(begin),
                self@.comes_from(begin),
                self@.stack == begin.stack,
            decreases stmts@.len() - i,
        {
            proof {
                reveal(AnalyzerView::pre_declare_stmts);
                reveal(ast::Stmt::model);
                reveal(ast::Decl::model);
                reveal(ast::Object::model);
            }
            match &stmts[i] {
                Stmt::Decl(decl) => {
                    match &**decl {
                        Decl::Decl { name: _, taipe: _, eq_token: _, object: Some(object) } => {
                            match object {
                                Object::ExternModule {
                                    line_info: _,
                                    value: _,
                                } | Object::Module { line_info: _, decls: _ } => {
                                    let line = match line_of(decl) {
                                        Ok(v) => v,
                                        Err(e) => {
                                            return Err(e);
                                        },
                                    };
                                    return Err(
                                        Stop::Errors(
                                            self.make_err(
                                                "module declarations are not allowed in block scope",
                                                line,
                                            ),
                                        ),
                                    );
                                },
                                Object::Fun {
                                    line_info: _,
                                    params: _,
                                    ret: _,
                                    body: _,
                                } | Object::Compound { line_info: _, field: _ } => {
                                    let ignored = match self.pre_declare_decl(decl) {
                                        Ok(v) => v,
                                        Err(e) => {
                                            return Err(e);
                                        },
                                    };
                                    i = i + 1;
                                },
                                _ => {
                                    i = i + 1;
                                },
                            }
                        },
                        _ => {
                            i = i + 1;
                        },
                    }
                },
                _ => {
                    i = i + 1;
                },
            }
        }
        Ok(())
    }

    /// The context without the instruction that drops its value.
    pub(crate) fn without_eval(
        &self,
        ctx: Context,
    ) -> (r: Context)
        requires
            self@.wf(),
        ensures
            r@ == self@.without_eval(ctx@),
    {
        broadcast use group_analyzer;

        proof {
            reveal(AnalyzerView::without_eval);
            reveal(Context::model);
            reveal(Value::model);
        }
        match ctx.value {
            Value::Eval(inner) => {
                *inner
            },
            value => {
                Context::make(ctx.is_lvalue, ctx.taipe, value)
            },
        }
    }

    /// Visits the statements of a block in order, up to one that gives a value or does not end.
    #[verifier::loop_isolation(false)]
    pub(crate) fn visit_stmts(
        &mut self,
        stmts: &'a Vec<Stmt>,
        is_lvalue: bool,
        taipe: Type,
        items: Vec<Context>,
        fuel: u64,
    ) -> (r: Result<BlockRun, Stop>)
        requires
            old(self)@.wf(),
        ensures
            (final(self)@, outcome(r)) == old(self)@.visit_stmts(
                stmt_models(stmts@),
                is_lvalue,
                taipe@,
                context_models(items@),
                fuel as int,
                0,
            ),
            final(self)@.follows(old(self)@),
        decreases fuel, 6nat,
    {
        broadcast use group_analyzer;

        proof {
            lemma_begin(self@);
            reveal(AnalyzerView::visit_stmts);
            reveal(AnalyzerView::visit_stmt);
            reveal(Context::model);
            reveal(Value::model);
        }
        let ghost goal = self@.visit_stmts(
            stmt_models(stmts@),
            is_lvalue,
            taipe@,
            context_models(items@),
            fuel as int,
            0,
        );
        let ghost begin = self@;
        let mut is_lvalue: bool = is_lvalue;
        let mut taipe: Type = taipe;
        let mut items: Vec<Context> = items;
        let mut i: usize = 0;
        while i < stmts.len()
            invariant
                i <= stmts@.len(),
                goal == self@.visit_stmts(
                    stmt_models(stmts@),
                    is_lvalue,
                    taipe@,
                    context_models(items@),
                    fuel as int,
                    i as int,
                ),
                self@.follows(begin),
                self@.comes_from(begin),
            decreases stmts@.len() - i,
        {
            proof {
                reveal(AnalyzerView::visit_stmts);
                reveal(AnalyzerView::visit_stmt);
                reveal(Context::model);
                reveal(Value::model);
            }
            let ctx = match self.visit_stmt(&stmts[i], fuel) {
                Ok(v) => v,
                Err(e) => {
                    return Err(e);
                },
            };
            let lvalue = ctx.is_lvalue;
            let result = ctx.taipe.copy();
            let item = self.without_eval(ctx);
            if result.is_void() && !result.is_noreturn() {
                is_lvalue = lvalue;
                taipe = result;
                items.push(item);
                i = i + 1;
                continue;
            }
            return Ok(
                BlockRun {
                    is_lvalue: lvalue,
                    taipe: result,
                    items: pushed(items, item),
                    last: i + 1,
                },
            );
        }
        Ok(BlockRun { is_lvalue, taipe, items, last: i })
    }

    /// Visits the remaining statements of a block, which are never reached.
    #[verifier::loop_isolation(false)]
    pub(crate) fn visit_rest(
        &mut self,
        stmts: &'a Vec<Stmt>,
        seen: usize,
        fuel: u64,
    ) -> (r: Result<(), Stop>)
        requires
            old(self)@.wf(),
        ensures
            (final(self)@, outcome(r)) == old(self)@.visit_rest(
                stmt_models(stmts@),
                seen as int,
                fuel as int,
                0,
            ),
            final(self)@.follows(old(self)@),
        decreases fuel, 6nat,
    {
        broadcast use group_analyzer;

        proof {
            lemma_begin(self@);
            reveal(AnalyzerView::visit_rest);
            reveal(AnalyzerView::visit_stmt);
        }
        let ghost goal = self@.visit_rest(stmt_models(stmts@), seen as int, fuel as int, 0);
        let ghost begin = self@;
        let mut i: usize = 0;
        while i < stmts.len()
            invariant
                i <= stmts@.len(),
                goal == self@.visit_rest(stmt_models(stmts@), seen as int, fuel as int, i as int),
                self@.follows(begin),
                self@.comes_from(begin),
            decreases stmts@.len() - i,
        {
            proof {
                reveal(AnalyzerView::visit_rest);
                reveal(AnalyzerView::visit_stmt);
            }
            if i < seen {
                i = i + 1;
                continue;
            }
            let ignored = match self.visit_stmt(&stmts[i], fuel) {
                Ok(v) => v,
                Err(e) => {
                    return Err(e);
                },
            };
            i = i + 1;
        }
        Ok(())
    }

    /// Lets the control flow of the current block reach its end.
    pub(crate) fn flow_finish(
        &mut self,
    ) -> (r: Result<(), Stop>)
        requires
            old(self)@.wf(),
        ensures
            (final(self)@, outcome(r)) == old(self)@.flow_finish(),
            final(self)@.follows(old(self)@),
            r is Ok ==> final(self)@.stack == old(self)@.stack,
    {
        broadcast use group_analyzer;

        proof {
            lemma_begin(self@);
            reveal(AnalyzerView::flow_finish);
        }
        let last = match self.flow_last() {
            Ok(v) => v,
            Err(e) => {
                return Err(e);
            },
        };
        let end = match self.flow_end() {
            Ok(v) => v,
            Err(e) => {
                return Err(e);
            },
        };
        if same_node(last, end) {
            return Ok(());
        }
        match self.flow_edge(last, end) {
            Ok(_) => {},
            Err(e) => {
                return Err(e);
            },
        }
        match self.flow_cut() {
            Ok(_) => {},
            Err(e) => {
                return Err(e);
            },
        }
        Ok(())
    }

    /// What a block stands for.
    #[verifier::rlimit(40)]
    pub(crate) fn visit_block(
        &mut self,
        line: LineInfo,
        stmts: &'a Vec<Stmt>,
        fuel: u64,
    ) -> (r: Result<Context, Stop>)
        requires
            old(self)@.wf(),
        ensures
            (final(self)@, outcome(r)) == old(self)@.visit_block(
                line@,
                stmt_models(stmts@),
                fuel as int,
            ),
            final(self)@.follows(old(self)@),
        decreases fuel, 5nat,
    {
        broadcast use group_analyzer;

        proof {
            lemma_begin(self@);
            reveal(AnalyzerView::visit_block);
            reveal(AnalyzerView::visit_stmts);
            reveal(AnalyzerView::visit_unreachable);
            reveal(Context::model);
            reveal(Value::model);
        }
        if fuel == 0 {
            return Err(Stop::Unsupported("nested too deeply".to_owned()));
        }
        let scope_id = match self.create_block_scope(line) {
            Ok(v) => v,
            Err(e) => {
                return Err(e);
            },
        };
        match self.push_current_scope(&scope_id) {
            Ok(_) => {},
            Err(e) => {
                return Err(e);
            },
        }
        match self.pre_declare_stmts(stmts) {
            Ok(_) => {},
            Err(e) => {
                return Err(e);
            },
        }
        let run = match self.visit_stmts(stmts, false, Type::Void, Vec::new(), fuel - 1) {
            Ok(v) => v,
            Err(e) => {
                return Err(e);
            },
        };
        match self.place_block(&scope_id, stmts, run.last) {
            Ok(_) => {},
            Err(e) => {
                return Err(e);
            },
        }
        match self.flow_finish() {
            Ok(_) => {},
            Err(e) => {
                return Err(e);
            },
        }
        match self.visit_unreachable(stmts, run.last, fuel - 1) {
            Ok(_) => {},
            Err(e) => {
                return Err(e);
            },
        }
        self.pop_current_scope();
        let errs = match self.traverse_cfg(&scope_id) {
            Ok(v) => v,
            Err(e) => {
                return Err(e);
            },
        };
        if !errs.is_empty() {
            self.save_error(errs);
        }
        self.set_scope_eval_state(&scope_id, ScopeEvalState::Visited);
        let items = close_items(run.items, &run.taipe);
        Ok(Context::make(run.is_lvalue, run.taipe.add_const(), Value::Block(items)))
    }

    /// Gives a block the region of the last statement that was visited in order.
    pub(crate) fn place_block(
        &mut self,
        scope_id: &ScopeId,
        stmts: &'a Vec<Stmt>,
        last: usize,
    ) -> (r: Result<(), Stop>)
        requires
            old(self)@.wf(),
        ensures
            (final(self)@, outcome(r)) == old(self)@.place_block(
                scope_id@,
                stmt_models(stmts@),
                last as int,
            ),
            final(self)@.follows(old(self)@),
            r is Ok ==> final(self)@.stack == old(self)@.stack,
    {
        broadcast use group_analyzer;

        proof {
            lemma_begin(self@);
            reveal(AnalyzerView::place_block);
        }
        if stmts.len() == 0 {
            return Ok(());
        }
        let line = match line_before(stmts, last) {
            Ok(v) => v,
            Err(e) => {
                return Err(e);
            },
        };
        self.set_line_info(scope_id, line);
        Ok(())
    }

    /// Visits the statements of a block that are never reached, and warns of them.
    pub(crate) fn visit_unreachable(
        &mut self,
        stmts: &'a Vec<Stmt>,
        last: usize,
        fuel: u64,
    ) -> (r: Result<(), Stop>)
        requires
            old(self)@.wf(),
        ensures
            (final(self)@, outcome(r)) == old(self)@.visit_unreachable(
                stmt_models(stmts@),
                last as int,
                fuel as int,
            ),
            final(self)@.follows(old(self)@),
        decreases fuel, 7nat,
    {
        broadcast use group_analyzer;

        proof {
            lemma_begin(self@);
            reveal(AnalyzerView::visit_unreachable);
            reveal(AnalyzerView::visit_rest);
        }
        if last >= stmts.len() {
            return Ok(());
        }
        match self.visit_rest(stmts, last, fuel) {
            Ok(_) => {},
            Err(e) => {
                return Err(e);
            },
        }
        let line = match stmts_line(stmts, last) {
            Ok(v) => v,
            Err(e) => {
                return Err(e);
            },
        };
        let warning = self.make_warning("unreachable code", line);
        self.warn(warning);
        Ok(())
    }
}

} // verus!
