use vstd::prelude::*;

use crate::ast;
use crate::analyzer::{
    group_analyzer, lemma_begin, Analyzer, AnalyzerView, ScopeEvalState, ScopeEvalStateView,
};
use crate::ast::{option_token_model, Decl, DeclView, Expr, ExprView, Object, ObjectView};
use crate::common::{
    line_of, option_outcome, option_view, outcome, CompileError, ErrorView, LineInfo, Span, Stop,
    StopView,
};
use crate::context::{Context, ContextView, Type, TypeView, Value, ValueView};
use crate::scope::{Payload, PayloadView, ScopeId, ScopeIdView, ScopeKind};
use crate::text::join2;
use crate::token::{Token, TokenKind, TokenView};

verus! {

impl AnalyzerView {
    /// Whether a scope is the one that the visit of a declaration is about.
    pub open spec fn visits(self, node: DeclView, id: ScopeIdView) -> bool {
        match node {
            DeclView::Decl { name, .. } | DeclView::DeclWithDirective { name, .. } =>
                self.declared_scope(node, name).1 == Ok::<ScopeIdView, StopView>(id),
            DeclView::Using { .. } => false,
        }
    }
}

impl AnalyzerView {
    /// Visits a declaration. What it declares is a child of the current scope and is then visited;
    /// the scopes that are current before are current after it.
    #[verifier::opaque]
    pub open spec fn visit_decl(
        self,
        node: DeclView,
        fuel: int,
    ) -> (AnalyzerView, Result<ScopeIdView, StopView>)
        decreases fuel, 5nat, 0int,
    {
        let s = self;
        if fuel <= 0 {
            (s, Err(StopView::Unsupported("nested too deeply"@)))
        } else {
        match node {
            DeclView::Decl { name, taipe, eq_token, object } => {
                match s.declared_scope(node, name) {
                    (s, Err(e)) => (s, Err(e)), (s, Ok(scope_id)) => {
                match s.begin_visit(scope_id) { (s, Err(e)) => (s, Err(e)), (s, Ok(_)) => {
                match object {
                    None => {
                        if eq_token.is_some() {
                            (s, Err(StopView::Unsupported("probably some parser bug"@)))
                        } else {
                        match taipe {
                            Some(annotation) => {
                                s.visit_plain_decl(node, scope_id, annotation, fuel - 1)
                            },
                            None => {
                                (s, Err(StopView::Unsupported("probably some parser bug"@)))
                            },
                        }
                        }
                    },
                    Some(value) => {
                        match value {
                            ObjectView::ExternModule {
                                line_info: _,
                                value: _,
                            } | ObjectView::Module { line_info: _, decls: _ } => {
                                (
                                    s,
                                    Err(
                                        StopView::Unsupported(
                                            "not supposed to come here as module is already visited"@,
                                        ),
                                    ),
                                )
                            },
                            ObjectView::Compound { line_info: _, field } => {
                                match s.check_colon(eq_token) {
                                    (s, Err(e)) => (s, Err(e)), (s, Ok(_)) => {
                                let s = s.set_kind(scope_id, ScopeKind::Compound);
                                match s.check_typedef(node, taipe, fuel - 1) {
                                    (s, Err(e)) => (s, Err(e)), (s, Ok(_)) => {
                                s.visit_compound(scope_id, field, fuel - 1)
                                }}}}
                            },
                            ObjectView::Fun { line_info, params, ret: result, body } => {
                                match s.check_colon(eq_token) {
                                    (s, Err(e)) => (s, Err(e)), (s, Ok(_)) => {
                                let s = s.set_kind(scope_id, ScopeKind::Function);
                                match s.visit_annotation(taipe, fuel - 1) {
                                    (s, Err(e)) => (s, Err(e)), (s, Ok(lhs)) => {
                                s.visit_fun(
                                    scope_id,
                                    lhs,
                                    eq_token,
                                    line_info,
                                    params,
                                    result,
                                    body,
                                    fuel - 1,
                                )
                                }}}}
                            },
                            ObjectView::Typedef(target) => {
                                match s.check_colon(eq_token) {
                                    (s, Err(e)) => (s, Err(e)), (s, Ok(_)) => {
                                let s = s.set_kind(scope_id, ScopeKind::Typedef);
                                s.visit_typedef(scope_id, taipe, target, fuel - 1)
                                }}
                            },
                            ObjectView::Expr(expr) => {
                                match s.visit_annotation(taipe, fuel - 1) {
                                    (s, Err(e)) => (s, Err(e)), (s, Ok(lhs)) => {
                                s.visit_value(node, scope_id, lhs, eq_token, expr, fuel - 1)
                                }}
                            },
                        }
                    },
                }
                }}}}
            },
            DeclView::DeclWithDirective { name, taipe, eq_token: _, directive } => {
                s.visit_directive(node, name, taipe, directive, fuel - 1)
            },
            DeclView::Using { line_info: _, items: _ } => {
                (s, Err(StopView::Unsupported("import statements are not supported yet"@)))
            },
        }
        }
    }

    /// The type that a declaration is annotated with, and where.
    #[verifier::opaque]
    pub open spec fn visit_annotation(
        self,
        taipe: Option<ast::TypeView>,
        fuel: int,
    ) -> (AnalyzerView, Result<Option<(TypeView, Span)>, StopView>)
        decreases fuel, 6nat, 0int,
    {
        let s = self;
        match taipe {
            None => {
                (s, Ok(None))
            },
            Some(node) => {
                match s.visit_type(node, fuel) { (s, Err(e)) => (s, Err(e)), (s, Ok(found)) => {
                match node.line() { Err(e) => (s, Err(e)), Ok(line) => {
                (s, Ok(Some((found, line))))
                }}}}
            },
        }
    }

    /// Visits a declaration without a value.
    #[verifier::opaque]
    pub open spec fn visit_plain_decl(
        self,
        node: DeclView,
        scope_id: ScopeIdView,
        annotation: ast::TypeView,
        fuel: int,
    ) -> (AnalyzerView, Result<ScopeIdView, StopView>)
        decreases fuel, 6nat, 0int,
    {
        let s = self;
        match s.visit_type(annotation, fuel) { (s, Err(e)) => (s, Err(e)), (s, Ok(taipe)) => {
        if taipe.is_const() {
            match node.line() { Err(e) => (s, Err(e)), Ok(node_line) => {
            (s, Err(StopView::Errors(s.make_err("value must be specified"@, node_line))))
            }}
        } else {
        match annotation.line() { Err(e) => (s, Err(e)), Ok(line) => {
        match s.resolve_assign(Some((taipe, line)), None, None) {
            Err(e) => (s, Err(e)), Ok(ctx) => {
        s.finish_decl(node, scope_id, ctx, false)
        }}}}}}}
    }

    /// Visits a variable or a constant with a value.
    #[verifier::opaque]
    pub open spec fn visit_value(
        self,
        node: DeclView,
        scope_id: ScopeIdView,
        lhs: Option<(TypeView, Span)>,
        eq_token: Option<TokenView>,
        expr: ExprView,
        fuel: int,
    ) -> (AnalyzerView, Result<ScopeIdView, StopView>)
        decreases fuel, 6nat, 0int,
    {
        let s = self;
        match s.visit_expr(expr, fuel) { (s, Err(e)) => (s, Err(e)), (s, Ok(rhs)) => {
        if rhs.taipe.is_module() {
            match expr.line() { Err(e) => (s, Err(e)), Ok(line) => {
            (s, Err(StopView::Errors(s.make_err("cannot assign a module to a variable"@, line))))
            }}
        } else {
        match s.global_rhs(rhs) { Err(e) => (s, Err(e)), Ok(rhs) => {
        match expr.line() { Err(e) => (s, Err(e)), Ok(line) => {
        match s.resolve_assign(lhs, eq_token, Some((rhs, line))) {
            Err(e) => (s, Err(e)), Ok(ctx) => {
        s.finish_decl(node, scope_id, ctx, true)
        }}}}}}}}}
    }

    /// Evaluates the value of a global variable or constant.
    #[verifier::opaque]
    pub open spec fn global_rhs(
        self,
        rhs: ContextView,
    ) -> Result<ContextView, StopView>
    {
        let s = self;
        match s.get_current_function() {
            None => {
                s.compeval_trivial(rhs)
            },
            Some(_) => {
                Ok(rhs)
            },
        }
    }

    /// Visits the declaration of a type.
    #[verifier::opaque]
    pub open spec fn visit_typedef(
        self,
        scope_id: ScopeIdView,
        taipe: Option<ast::TypeView>,
        target: ast::TypeView,
        fuel: int,
    ) -> (AnalyzerView, Result<ScopeIdView, StopView>)
        decreases fuel, 7nat, 0int,
    {
        let s = self;
        match s.annotation_errors(taipe, target, fuel) {
            (s, Err(e)) => (s, Err(e)), (s, Ok(errs)) => {
        let (s, result) = s.visit_type(target, fuel);
        match result {
            Ok(found) => {
                match s.alias_errors(found, target, errs) { Err(e) => (s, Err(e)), Ok(errs) => {
                if !errs.is_empty() {
                    (s, Err(StopView::Errors(errs)))
                } else {
                let s = s.set_payload(scope_id, PayloadView::Typedef(found));
                let s = s.set_scope_eval_state(scope_id, ScopeEvalStateView::Visited);
                (s, Ok(scope_id))
                }}}
            },
            Err(StopView::Errors(err)) => {
                (s, Err(StopView::Errors(errs.chain(err))))
            },
            Err(e) => {
                (s, Err(e))
            },
        }
        }}
    }

    /// The reports with one more on a type that stands for no type.
    #[verifier::opaque]
    pub open spec fn alias_errors(
        self,
        found: TypeView,
        target: ast::TypeView,
        errs: ErrorView,
    ) -> Result<ErrorView, StopView>
    {
        let s = self;
        match found {
            TypeView::Typedef => {
                match target.line() { Err(e) => Err(e), Ok(line) => {
                Ok(errs.chain(s.make_err("invalid type alias"@, line)))
                }}
            },
            _ => {
                Ok(errs)
            },
        }
    }

    /// The reports on the annotation of a type.
    #[verifier::opaque]
    pub open spec fn annotation_errors(
        self,
        taipe: Option<ast::TypeView>,
        target: ast::TypeView,
        fuel: int,
    ) -> (AnalyzerView, Result<ErrorView, StopView>)
        decreases fuel, 6nat, 0int,
    {
        let s = self;
        match taipe {
            None => {
                (s, Ok(ErrorView::empty()))
            },
            Some(annotation) => {
                let (s, result) = s.visit_type(annotation, fuel);
                match result {
                    Ok(TypeView::Typedef) => {
                        (s, Ok(ErrorView::empty()))
                    },
                    Ok(_) => {
                        match target.line() { Err(e) => (s, Err(e)), Ok(line) => {
                        (s, Ok(ErrorView::empty().chain(s.make_err("expected 'typedef'"@, line))))
                        }}
                    },
                    Err(StopView::Errors(err)) => {
                        (s, Ok(ErrorView::empty().chain(err)))
                    },
                    Err(e) => {
                        (s, Err(e))
                    },
                }
            },
        }
    }

    /// Whether variables of a type can be declared with a directive in place of a value.
    #[verifier::opaque]
    pub open spec fn is_directive_allowed(
        self,
        taipe: TypeView,
    ) -> bool
        decreases taipe,
    {
        let s = self;
        match taipe {
            TypeView::Const(inner) => {
                s.is_directive_allowed(*inner)
            },
            TypeView::Module | TypeView::Typedef | TypeView::Void | TypeView::Noreturn => {
                false
            },
            _ => {
                true
            },
        }
    }

    /// Visits a declaration with a directive in place of a value.
    #[verifier::opaque]
    pub open spec fn visit_directive(
        self,
        node: DeclView,
        name: TokenView,
        annotation: ast::TypeView,
        directive: TokenView,
        fuel: int,
    ) -> (AnalyzerView, Result<ScopeIdView, StopView>)
        decreases fuel, 7nat, 0int,
    {
        let s = self;
        match s.declared_scope(node, name) { (s, Err(e)) => (s, Err(e)), (s, Ok(scope_id)) => {
        match s.get_scope_eval_state(scope_id) { Err(e) => (s, Err(e)), Ok(state) => {
        match s.get_scope(scope_id) { Err(e) => (s, Err(e)), Ok(scope) => {
        match state {
            ScopeEvalStateView::NotVisited(_) => {
                let s = s.set_scope_eval_state(scope_id, ScopeEvalStateView::VisitInProgress);
                s.visit_directive_value(node, scope_id, annotation, directive, fuel)
            },
            ScopeEvalStateView::VisitInProgress => {
                (s, Err(StopView::Unsupported("probably some analyzer bug"@)))
            },
            ScopeEvalStateView::Visited => {
                match scope.kind {
                    ScopeKind::Module => {
                        s.visit_directive_value(node, scope_id, annotation, directive, fuel)
                    },
                    _ => {
                        (s, Ok(scope_id))
                    },
                }
            },
        }
        }}}}}}
    }

    /// The value that a directive stands for.
    #[verifier::opaque]
    pub open spec fn directive_value(
        self,
        taipe: TypeView,
        line: Span,
        directive: TokenView,
    ) -> Result<ContextView, StopView>
    {
        let s = self;
        match directive.kind {
            TokenKind::DirectiveZero => {
                s.get_zero_value(taipe, line)
            },
            TokenKind::DirectiveUninit | TokenKind::DirectiveGhost => {
                Ok(ContextView::make(false, taipe, ValueView::from_nil()))
            },
            TokenKind::DirectiveDefault => {
                s.get_default_value(taipe, line)
            },
            _ => {
                Err(StopView::Unsupported("probably some parser bug"@))
            },
        }
    }

    /// Visits the type and the directive of a declaration.
    #[verifier::opaque]
    pub open spec fn visit_directive_value(
        self,
        node: DeclView,
        scope_id: ScopeIdView,
        annotation: ast::TypeView,
        directive: TokenView,
        fuel: int,
    ) -> (AnalyzerView, Result<ScopeIdView, StopView>)
        decreases fuel, 6nat, 0int,
    {
        let s = self;
        match s.visit_type(annotation, fuel) { (s, Err(e)) => (s, Err(e)), (s, Ok(taipe)) => {
        match annotation.line() { Err(e) => (s, Err(e)), Ok(line) => {
        if !s.is_directive_allowed(taipe) {
            (
                s,
                Err(
                    StopView::Errors(
                        s.make_err(("invalid type: '"@ + taipe.to_text() + "'"@), line),
                    ),
                ),
            )
        } else {
        match s.directive_value(taipe, line, directive) { Err(e) => (s, Err(e)), Ok(ctx) => {
        match directive.kind {
            TokenKind::DirectiveUninit => {
                s.finish_decl(node, scope_id, ctx, false)
            },
            _ => {
                s.finish_decl(node, scope_id, ctx, true)
            },
        }
        }}}}}}}
    }
}

impl<'a> Analyzer<'a> {
    /// Visits a declaration. What it declares is a child of the current scope and is then visited;
    /// the scopes that are current before are current after it.
    pub(crate) fn visit_decl(
        &mut self,
        node: &'a Decl,
        fuel: u64,
    ) -> (r: Result<ScopeId, Stop>)
        requires
            old(self)@.wf(),
        ensures
            (final(self)@, outcome(r)) == old(self)@.visit_decl(node@, fuel as int),
            final(self)@.follows(old(self)@),
            old(self)@.stack.is_prefix_of(final(self)@.stack),
            r matches Ok(id) ==> final(self)@.is_child(old(self)@.current_id(), id@),
            r matches Ok(id) ==> old(self)@.visits(node@, id@) && final(self)@.is_visited(id@),
        decreases fuel, 5nat,
    {
        broadcast use group_analyzer;

        proof {
            lemma_begin(self@);
            reveal(AnalyzerView::visit_decl);
            reveal(AnalyzerView::check_typedef);
            reveal(AnalyzerView::visit_annotation);
            reveal(AnalyzerView::visit_compound);
            reveal(AnalyzerView::visit_directive);
            reveal(AnalyzerView::visit_fun);
            reveal(AnalyzerView::visit_plain_decl);
            reveal(AnalyzerView::visit_typedef);
            reveal(AnalyzerView::visit_value);
            reveal(ast::Decl::model);
            reveal(ast::Object::model);
        }
        if fuel == 0 {
            return Err(Stop::Unsupported("nested too deeply".to_owned()));
        }
        match node {
            Decl::Decl { name, taipe, eq_token, object } => {
                let scope_id = match self.declared_scope(node, name) {
                    Ok(v) => v,
                    Err(e) => {
                        return Err(e);
                    },
                };
                match self.begin_visit(&scope_id) {
                    Ok(_) => {},
                    Err(e) => {
                        return Err(e);
                    },
                }
                match object {
                    None => {
                        if eq_token.is_some() {
                            return Err(Stop::Unsupported("probably some parser bug".to_owned()));
                        }
                        match taipe {
                            Some(annotation) => {
                                self.visit_plain_decl(node, scope_id, annotation, fuel - 1)
                            },
                            None => {
                                Err(Stop::Unsupported("probably some parser bug".to_owned()))
                            },
                        }
                    },
                    Some(value) => {
                        match value {
                            Object::ExternModule {
                                line_info: _,
                                value: _,
                            } | Object::Module { line_info: _, decls: _ } => {
                                Err(
                                    Stop::Unsupported(
                                        "not supposed to come here as module is already visited".to_owned(),
                                    ),
                                )
                            },
                            Object::Compound { line_info: _, field } => {
                                match self.check_colon(eq_token) {
                                    Ok(_) => {},
                                    Err(e) => {
                                        return Err(e);
                                    },
                                }
                                self.set_kind(&scope_id, ScopeKind::Compound);
                                match self.check_typedef(node, taipe, fuel - 1) {
                                    Ok(_) => {},
                                    Err(e) => {
                                        return Err(e);
                                    },
                                }
                                self.visit_compound(scope_id, field, fuel - 1)
                            },
                            Object::Fun { line_info, params, ret: result, body } => {
                                match self.check_colon(eq_token) {
                                    Ok(_) => {},
                                    Err(e) => {
                                        return Err(e);
                                    },
                                }
                                self.set_kind(&scope_id, ScopeKind::Function);
                                let lhs = match self.visit_annotation(taipe, fuel - 1) {
                                    Ok(v) => v,
                                    Err(e) => {
                                        return Err(e);
                                    },
                                };
                                self.visit_fun(
                                    scope_id,
                                    lhs,
                                    eq_token,
                                    *line_info,
                                    params,
                                    result,
                                    body,
                                    fuel - 1,
                                )
                            },
                            Object::Typedef(target) => {
                                match self.check_colon(eq_token) {
                                    Ok(_) => {},
                                    Err(e) => {
                                        return Err(e);
                                    },
                                }
                                self.set_kind(&scope_id, ScopeKind::Typedef);
                                self.visit_typedef(scope_id, taipe, target, fuel - 1)
                            },
                            Object::Expr(expr) => {
                                let lhs = match self.visit_annotation(taipe, fuel - 1) {
                                    Ok(v) => v,
                                    Err(e) => {
                                        return Err(e);
                                    },
                                };
                                self.visit_value(node, scope_id, lhs, eq_token, expr, fuel - 1)
                            },
                        }
                    },
                }
            },
            Decl::DeclWithDirective { name, taipe, eq_token: _, directive } => {
                self.visit_directive(node, name, taipe, directive, fuel - 1)
            },
            Decl::Using { line_info: _, items: _ } => {
                Err(Stop::Unsupported("import statements are not supported yet".to_owned()))
            },
        }
    }

    /// The type that a declaration is annotated with, and where.
    pub(crate) fn visit_annotation(
        &mut self,
        taipe: &'a Option<ast::Type>,
        fuel: u64,
    ) -> (r: Result<Option<(Type, LineInfo)>, Stop>)
        requires
            old(self)@.wf(),
        ensures
            (final(self)@, option_outcome(r)) == old(self)@.visit_annotation(
                option_view(*taipe),
                fuel as int,
            ),
            final(self)@.follows(old(self)@),
        decreases fuel, 6nat,
    {
        broadcast use group_analyzer;

        proof {
            lemma_begin(self@);
            reveal(AnalyzerView::visit_annotation);
            reveal(AnalyzerView::visit_type);
        }
        match taipe {
            None => {
                Ok(None)
            },
            Some(node) => {
                let found = match self.visit_type(node, fuel) {
                    Ok(v) => v,
                    Err(e) => {
                        return Err(e);
                    },
                };
                let line = match line_of(node) {
                    Ok(v) => v,
                    Err(e) => {
                        return Err(e);
                    },
                };
                Ok(Some((found, line)))
            },
        }
    }

    /// Visits a declaration without a value.
    pub(crate) fn visit_plain_decl(
        &mut self,
        node: &'a Decl,
        scope_id: ScopeId,
        annotation: &'a ast::Type,
        fuel: u64,
    ) -> (r: Result<ScopeId, Stop>)
        requires
            old(self)@.wf(),
        ensures
            (final(self)@, outcome(r)) == old(self)@.visit_plain_decl(
                node@,
                scope_id@,
                annotation@,
                fuel as int,
            ),
            final(self)@.follows(old(self)@),
            r matches Ok(id) ==> id@ == scope_id@ && (0 <= id@.index < old(self)@.states.len()
                ==> final(self)@.is_visited(id@)),
        decreases fuel, 6nat,
    {
        broadcast use group_analyzer;

        proof {
            lemma_begin(self@);
            reveal(AnalyzerView::visit_plain_decl);
            reveal(AnalyzerView::visit_type);
        }
        let taipe = match self.visit_type(annotation, fuel) {
            Ok(v) => v,
            Err(e) => {
                return Err(e);
            },
        };
        if taipe.is_const() {
            let node_line = match line_of(node) {
                Ok(v) => v,
                Err(e) => {
                    return Err(e);
                },
            };
            return Err(Stop::Errors(self.make_err("value must be specified", node_line)));
        }
        let line = match line_of(annotation) {
            Ok(v) => v,
            Err(e) => {
                return Err(e);
            },
        };
        let ctx = match self.resolve_assign(Some((taipe, line)), None, None) {
            Ok(v) => v,
            Err(e) => {
                return Err(e);
            },
        };
        self.finish_decl(node, scope_id, ctx, false)
    }

    /// Visits a variable or a constant with a value.
    pub(crate) fn visit_value(
        &mut self,
        node: &'a Decl,
        scope_id: ScopeId,
        lhs: Option<(Type, LineInfo)>,
        eq_token: &Option<Token>,
        expr: &'a Expr,
        fuel: u64,
    ) -> (r: Result<ScopeId, Stop>)
        requires
            old(self)@.wf(),
        ensures
            (final(self)@, outcome(r)) == old(self)@.visit_value(
                node@,
                scope_id@,
                option_view(lhs),
                option_token_model(*eq_token),
                expr@,
                fuel as int,
            ),
            final(self)@.follows(old(self)@),
            r matches Ok(id) ==> id@ == scope_id@ && (0 <= id@.index < old(self)@.states.len()
                ==> final(self)@.is_visited(id@)),
        decreases fuel, 6nat,
    {
        broadcast use group_analyzer;

        proof {
            lemma_begin(self@);
            reveal(AnalyzerView::visit_value);
            reveal(AnalyzerView::visit_expr);
            reveal(Context::model);
            reveal(Value::model);
        }
        let rhs = match self.visit_expr(expr, fuel) {
            Ok(v) => v,
            Err(e) => {
                return Err(e);
            },
        };
        if rhs.taipe.is_module() {
            let line = match line_of(expr) {
                Ok(v) => v,
                Err(e) => {
                    return Err(e);
                },
            };
            return Err(Stop::Errors(self.make_err("cannot assign a module to a variable", line)));
        }
        let rhs = match self.global_rhs(rhs) {
            Ok(v) => v,
            Err(e) => {
                return Err(e);
            },
        };
        let line = match line_of(expr) {
            Ok(v) => v,
            Err(e) => {
                return Err(e);
            },
        };
        let ctx = match self.resolve_assign(lhs, eq_token.as_ref(), Some((rhs, line))) {
            Ok(v) => v,
            Err(e) => {
                return Err(e);
            },
        };
        self.finish_decl(node, scope_id, ctx, true)
    }

    /// Evaluates the value of a global variable or constant.
    pub(crate) fn global_rhs(
        &self,
        rhs: Context,
    ) -> (r: Result<Context, Stop>)
        requires
            self@.wf(),
        ensures
            outcome(r) == self@.global_rhs(rhs@),
    {
        broadcast use group_analyzer;

        proof {
            reveal(AnalyzerView::global_rhs);
        }
        match self.get_current_function() {
            None => {
                self.compeval_trivial(&rhs)
            },
            Some(_) => {
                Ok(rhs)
            },
        }
    }

    /// Visits the declaration of a type.
    pub(crate) fn visit_typedef(
        &mut self,
        scope_id: ScopeId,
        taipe: &'a Option<ast::Type>,
        target: &'a ast::Type,
        fuel: u64,
    ) -> (r: Result<ScopeId, Stop>)
        requires
            old(self)@.wf(),
        ensures
            (final(self)@, outcome(r)) == old(self)@.visit_typedef(
                scope_id@,
                option_view(*taipe),
                target@,
                fuel as int,
            ),
            final(self)@.follows(old(self)@),
            r matches Ok(id) ==> id@ == scope_id@ && (0 <= id@.index < old(self)@.states.len()
                ==> final(self)@.is_visited(id@)),
        decreases fuel, 7nat,
    {
        broadcast use group_analyzer;

        proof {
            lemma_begin(self@);
            reveal(AnalyzerView::visit_typedef);
            reveal(AnalyzerView::annotation_errors);
            reveal(AnalyzerView::visit_type);
        }
        let errs = match self.annotation_errors(taipe, target, fuel) {
            Ok(v) => v,
            Err(e) => {
                return Err(e);
            },
        };
        match self.visit_type(target, fuel) {
            Ok(found) => {
                let errs = match self.alias_errors(&found, target, errs) {
                    Ok(v) => v,
                    Err(e) => {
                        return Err(e);
                    },
                };
                if !errs.is_empty() {
                    return Err(Stop::Errors(errs));
                }
                self.set_payload(&scope_id, Payload::Typedef(found));
                self.set_scope_eval_state(&scope_id, ScopeEvalState::Visited);
                Ok(scope_id)
            },
            Err(Stop::Errors(err)) => {
                Err(Stop::Errors(errs.chain(err)))
            },
            Err(e) => {
                Err(e)
            },
        }
    }

    /// The reports with one more on a type that stands for no type.
    pub(crate) fn alias_errors(
        &self,
        found: &Type,
        target: &ast::Type,
        errs: CompileError,
    ) -> (r: Result<CompileError, Stop>)
        requires
            self@.wf(),
        ensures
            outcome(r) == self@.alias_errors(found@, target@, errs@),
    {
        broadcast use group_analyzer;

        proof {
            reveal(AnalyzerView::alias_errors);
        }
        match found {
            Type::Typedef => {
                let line = match line_of(target) {
                    Ok(v) => v,
                    Err(e) => {
                        return Err(e);
                    },
                };
                Ok(errs.chain(self.make_err("invalid type alias", line)))
            },
            _ => {
                Ok(errs)
            },
        }
    }

    /// The reports on the annotation of a type.
    pub(crate) fn annotation_errors(
        &mut self,
        taipe: &'a Option<ast::Type>,
        target: &'a ast::Type,
        fuel: u64,
    ) -> (r: Result<CompileError, Stop>)
        requires
            old(self)@.wf(),
        ensures
            (final(self)@, outcome(r)) == old(self)@.annotation_errors(
                option_view(*taipe),
                target@,
                fuel as int,
            ),
            final(self)@.follows(old(self)@),
        decreases fuel, 6nat,
    {
        broadcast use group_analyzer;

        proof {
            lemma_begin(self@);
            reveal(AnalyzerView::annotation_errors);
            reveal(AnalyzerView::visit_type);
        }
        match taipe {
            None => {
                Ok(CompileError::new())
            },
            Some(annotation) => {
                match self.visit_type(annotation, fuel) {
                    Ok(Type::Typedef) => {
                        Ok(CompileError::new())
                    },
                    Ok(_) => {
                        let line = match line_of(target) {
                            Ok(v) => v,
                            Err(e) => {
                                return Err(e);
                            },
                        };
                        Ok(CompileError::new().chain(self.make_err("expected 'typedef'", line)))
                    },
                    Err(Stop::Errors(err)) => {
                        Ok(CompileError::new().chain(err))
                    },
                    Err(e) => {
                        Err(e)
                    },
                }
            },
        }
    }

    /// Whether variables of a type can be declared with a directive in place of a value.
    pub(crate) fn is_directive_allowed(
        &self,
        taipe: &Type,
    ) -> (r: bool)
        requires
            self@.wf(),
        ensures
            r == self@.is_directive_allowed(taipe@),
        decreases taipe,
    {
        broadcast use group_analyzer;

        proof {
            reveal(AnalyzerView::is_directive_allowed);
        }
        match taipe {
            Type::Const(inner) => {
                self.is_directive_allowed(inner)
            },
            Type::Module | Type::Typedef | Type::Void | Type::Noreturn => {
                false
            },
            _ => {
                true
            },
        }
    }

    /// Visits a declaration with a directive in place of a value.
    pub(crate) fn visit_directive(
        &mut self,
        node: &'a Decl,
        name: &Token,
        annotation: &'a ast::Type,
        directive: &Token,
        fuel: u64,
    ) -> (r: Result<ScopeId, Stop>)
        requires
            old(self)@.wf(),
        ensures
            (final(self)@, outcome(r)) == old(self)@.visit_directive(
                node@,
                name@,
                annotation@,
                directive@,
                fuel as int,
            ),
            final(self)@.follows(old(self)@),
            r matches Ok(id) ==> final(self)@.is_child(old(self)@.current_id(), id@),
            r matches Ok(id) ==> old(self)@.declared_scope(node@, name@).1 == Ok::<ScopeIdView, StopView>(
                id@,
            ) && final(self)@.is_visited(id@),
        decreases fuel, 7nat,
    {
        broadcast use group_analyzer;

        proof {
            lemma_begin(self@);
            reveal(AnalyzerView::visit_directive);
            reveal(AnalyzerView::visit_directive_value);
        }
        let scope_id = match self.declared_scope(node, name) {
            Ok(v) => v,
            Err(e) => {
                return Err(e);
            },
        };
        let state = match self.get_scope_eval_state(&scope_id) {
            Ok(v) => v,
            Err(e) => {
                return Err(e);
            },
        };
        let scope = match self.get_scope(&scope_id) {
            Ok(v) => v,
            Err(e) => {
                return Err(e);
            },
        };
        match state {
            ScopeEvalState::NotVisited(_) => {
                self.set_scope_eval_state(&scope_id, ScopeEvalState::VisitInProgress);
                self.visit_directive_value(node, scope_id, annotation, directive, fuel)
            },
            ScopeEvalState::VisitInProgress => {
                Err(Stop::Unsupported("probably some analyzer bug".to_owned()))
            },
            ScopeEvalState::Visited => {
                match scope.kind {
                    ScopeKind::Module => {
                        self.visit_directive_value(node, scope_id, annotation, directive, fuel)
                    },
                    _ => {
                        Ok(scope_id)
                    },
                }
            },
        }
    }

    /// The value that a directive stands for.
    pub(crate) fn directive_value(
        &self,
        taipe: Type,
        line: LineInfo,
        directive: &Token,
    ) -> (r: Result<Context, Stop>)
        requires
            self@.wf(),
        ensures
            outcome(r) == self@.directive_value(taipe@, line@, directive@),
    {
        broadcast use group_analyzer;

        proof {
            reveal(AnalyzerView::directive_value);
            reveal(Context::model);
            reveal(Value::model);
        }
        match directive.kind {
            TokenKind::DirectiveZero => {
                self.get_zero_value(&taipe, line)
            },
            TokenKind::DirectiveUninit | TokenKind::DirectiveGhost => {
                Ok(Context::make(false, taipe, Value::from_nil()))
            },
            TokenKind::DirectiveDefault => {
                self.get_default_value(&taipe, line)
            },
            _ => {
                Err(Stop::Unsupported("probably some parser bug".to_owned()))
            },
        }
    }

    /// Visits the type and the directive of a declaration.
    pub(crate) fn visit_directive_value(
        &mut self,
        node: &'a Decl,
        scope_id: ScopeId,
        annotation: &'a ast::Type,
        directive: &Token,
        fuel: u64,
    ) -> (r: Result<ScopeId, Stop>)
        requires
            old(self)@.wf(),
        ensures
            (final(self)@, outcome(r)) == old(self)@.visit_directive_value(
                node@,
                scope_id@,
                annotation@,
                directive@,
                fuel as int,
            ),
            final(self)@.follows(old(self)@),
            r matches Ok(id) ==> id@ == scope_id@ && (0 <= id@.index < old(self)@.states.len()
                ==> final(self)@.is_visited(id@)),
        decreases fuel, 6nat,
    {
        broadcast use group_analyzer;

        proof {
            lemma_begin(self@);
            reveal(AnalyzerView::visit_directive_value);
            reveal(AnalyzerView::visit_type);
        }
        let taipe = match self.visit_type(annotation, fuel) {
            Ok(v) => v,
            Err(e) => {
                return Err(e);
            },
        };
        let line = match line_of(annotation) {
            Ok(v) => v,
            Err(e) => {
                return Err(e);
            },
        };
        if !self.is_directive_allowed(&taipe) {
            return Err(
                Stop::Errors(
                    self.make_err(&join2(&join2("invalid type: '", &taipe.to_text()), "'"), line),
                ),
            );
        }
        let ctx = match self.directive_value(taipe, line, directive) {
            Ok(v) => v,
            Err(e) => {
                return Err(e);
            },
        };
        match directive.kind {
            TokenKind::DirectiveUninit => {
                self.finish_decl(node, scope_id, ctx, false)
            },
            _ => {
                self.finish_decl(node, scope_id, ctx, true)
            },
        }
    }
}

} // verus!
