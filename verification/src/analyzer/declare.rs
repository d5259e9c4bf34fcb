use vstd::prelude::*;

use crate::ast;
use crate::analyzer::{
    group_analyzer, lemma_begin, Analyzer, AnalyzerView, ScopeEvalState, ScopeEvalStateView,
    ScopeNode, ScopeNodeView,
};
use crate::ast::{option_token_model, Decl, DeclView, Object, ObjectView};
use crate::cfg::{ControlInfo, ControlInfoView, ControlNode, ControlNodeView};
use crate::common::{line_of, option_outcome, outcome, CompileError, ErrorView, Stop, StopView};
use crate::context::{Context, ContextView, Type, TypeView, Value};
use crate::scope::{
    ParamInfo, ParamInfoView, Payload, PayloadView, ScopeId, ScopeIdView, ScopeKind,
};
use crate::text::{count_decimal, count_text, join2};
use crate::token::{Token, TokenKind, TokenView};

verus! {

impl AnalyzerView {
    /// The name of a new symbol: an unnamed one gets a name that no other one can have.
    #[verifier::opaque]
    pub open spec fn sym_name(
        self,
        name: TokenView,
    ) -> (AnalyzerView, Result<Seq<char>, StopView>)
    {
        let s = self;
        match name.kind {
            TokenKind::Underscore => {
                let (s, count) = s.next_unique();
                (s, Ok(("unnamed"@ + count_decimal(count) + "$"@)))
            },
            _ => {
                (s, Ok(name.text))
            },
        }
    }

    /// The symbol of the current scope that a declaration repeats, if there is one.
    #[verifier::opaque]
    pub open spec fn repeated(
        self,
        name: TokenView,
    ) -> Result<Option<ScopeIdView>, StopView>
    {
        let s = self;
        match name.kind {
            TokenKind::Underscore => {
                Ok(None)
            },
            _ => {
                let current = s.current_id();
                s.find_child(current, name.text)
            },
        }
    }

    /// The reports on a symbol that is declared twice.
    #[verifier::opaque]
    pub open spec fn redeclared(
        self,
        name: TokenView,
        previous: ScopeIdView,
    ) -> Result<ScopeIdView, StopView>
    {
        let s = self;
        match s.scope_line(previous) { Err(e) => Err(e), Ok(line) => {
        Err(StopView::Errors(ErrorView::pair(
                s.make_err("redeclaration of symbol"@, name.line_info),
                s.make_note("already declared here"@, line))))
        }}
    }

    /// Adds a symbol for a declaration to the current scope.
    #[verifier::opaque]
    pub open spec fn add_symbol(
        self,
        node: DeclView,
        name: TokenView,
    ) -> (AnalyzerView, Result<ScopeIdView, StopView>)
    {
        let s = self;
        match s.sym_name(name) { (s, Err(e)) => (s, Err(e)), (s, Ok(sym)) => {
        let parent = s.current_id();
        let (s, id) = s.add_child_scope(
            parent,
            ScopeKind::Unknown,
            sym,
            ScopeEvalStateView::NotVisited(ScopeNodeView::Decl(node)),
            PayloadView::Unknown,
            name.line_info,
        );
        (s, Ok(id))
        }}
    }

    /// Declares a symbol without a value.
    #[verifier::opaque]
    pub open spec fn declare_sym(
        self,
        node: DeclView,
        name: TokenView,
    ) -> (AnalyzerView, Result<ScopeIdView, StopView>)
    {
        let s = self;
        match s.repeated(name) { Err(e) => (s, Err(e)), Ok(previous) => {
        match previous {
            Some(id) => {
                (s, s.redeclared(name, id))
            },
            None => {
                s.add_symbol(node, name)
            },
        }
        }}
    }

    /// Declares a symbol with a value. Modules with the same name are one module.
    #[verifier::opaque]
    pub open spec fn declare_sym_with_value(
        self,
        node: DeclView,
        name: TokenView,
        object: ObjectView,
    ) -> (AnalyzerView, Result<ScopeIdView, StopView>)
    {
        let s = self;
        match s.repeated(name) { Err(e) => (s, Err(e)), Ok(previous) => {
        match previous {
            None => {
                s.add_symbol(node, name)
            },
            Some(id) => {
                if !object.is_module() {
                    (s, s.redeclared(name, id))
                } else {
                match s.get_scope_eval_state(id) { Err(e) => (s, Err(e)), Ok(state) => {
                match s.get_scope(id) { Err(e) => (s, Err(e)), Ok(scope) => {
                match state {
                    ScopeEvalStateView::Visited => {
                        match scope.kind {
                            ScopeKind::Module => {
                                (s, Ok(id))
                            },
                            _ => {
                                (s, s.redeclared(name, id))
                            },
                        }
                    },
                    ScopeEvalStateView::NotVisited(earlier) => {
                        match earlier {
                            ScopeNodeView::Decl(decl) => {
                                match decl {
                                    DeclView::Decl {
                                        name: _,
                                        taipe: _,
                                        eq_token: _,
                                        object: Some(held),
                                    } => {
                                        if held.is_module() {
                                            (s, Ok(id))
                                        } else {
                                            (s, s.redeclared(name, id))
                                        }
                                    },
                                    _ => {
                                        (s, s.redeclared(name, id))
                                    },
                                }
                            },
                            ScopeNodeView::Object(_) => {
                                (s, s.redeclared(name, id))
                            },
                        }
                    },
                    ScopeEvalStateView::VisitInProgress => {
                        (s, s.redeclared(name, id))
                    },
                }
                }}}}}
            },
        }
        }}
    }

    /// Declares a parameter of the current function.
    #[verifier::opaque]
    pub open spec fn declare_param(
        self,
        param: ParamInfoView,
        name: TokenView,
    ) -> (AnalyzerView, Result<ScopeIdView, StopView>)
    {
        let s = self;
        match s.repeated(name) { Err(e) => (s, Err(e)), Ok(previous) => {
        match previous {
            Some(id) => {
                (s, s.redeclared(name, id))
            },
            None => {
                match s.sym_name(name) { (s, Err(e)) => (s, Err(e)), (s, Ok(sym)) => {
                let parent = s.current_id();
                let (s, id) = s.add_child_scope(
                    parent,
                    ScopeKind::Param,
                    sym,
                    ScopeEvalStateView::Visited,
                    PayloadView::Param(param),
                    name.line_info,
                );
                (s, Ok(id))
                }}
            },
        }
        }}
    }

    /// Declares what a declaration gives a name to, without visiting it.
    #[verifier::opaque]
    pub open spec fn pre_declare_decl(
        self,
        decl: DeclView,
    ) -> (AnalyzerView, Result<ScopeIdView, StopView>)
    {
        let s = self;
        match decl {
            DeclView::Decl { name, taipe: _, eq_token: _, object } => {
                match object {
                    Some(value) => {
                        s.declare_sym_with_value(decl, name, value)
                    },
                    None => {
                        s.declare_sym(decl, name)
                    },
                }
            },
            DeclView::DeclWithDirective { name, taipe: _, eq_token: _, directive: _ } => {
                s.declare_sym(decl, name)
            },
            DeclView::Using { line_info: _, items: _ } => {
                (s, Err(StopView::Unsupported("import statements are not yet supported"@)))
            },
        }
    }

    /// The symbol of a declaration that is visited. Outside of blocks it may be declared already.
    #[verifier::opaque]
    pub open spec fn declared_scope(
        self,
        node: DeclView,
        name: TokenView,
    ) -> (AnalyzerView, Result<ScopeIdView, StopView>)
    {
        let s = self;
        if s.get_current_block().is_some() {
            s.pre_declare_decl(node)
        } else {
        let current = s.current_id();
        match s.find_child(current, name.text) { Err(e) => (s, Err(e)), Ok(found) => {
        match found {
            Some(id) => {
                (s, Ok(id))
            },
            None => {
                s.pre_declare_decl(node)
            },
        }
        }}}
    }

    /// Records that the visit of a scope has begun.
    #[verifier::opaque]
    pub open spec fn begin_visit(
        self,
        scope_id: ScopeIdView,
    ) -> (AnalyzerView, Result<(), StopView>)
    {
        let s = self;
        match s.get_scope_eval_state(scope_id) { Err(e) => (s, Err(e)), Ok(state) => {
        match state {
            ScopeEvalStateView::NotVisited(_) => {
                let s = s.set_scope_eval_state(scope_id, ScopeEvalStateView::VisitInProgress);
                (s, Ok(()))
            },
            _ => {
                (s, Err(StopView::Unsupported("probably some analyzer bug"@)))
            },
        }
        }}
    }

    /// Keeps a report if a constant is not declared with a colon.
    #[verifier::opaque]
    pub open spec fn check_colon(
        self,
        eq_token: Option<TokenView>,
    ) -> (AnalyzerView, Result<(), StopView>)
    {
        let s = self;
        match eq_token { None => {
            (s, Err(StopView::Unsupported("probably some parser bug"@)))
        }, Some(token) => {
        match token.kind {
            TokenKind::Colon => {
                (s, Ok(()))
            },
            _ => {
                let err = s.make_err("expected ':'"@, token.line_info);
                let s = s.save_error(err);
                (s, Ok(()))
            },
        }
        }}
    }

    /// What a variable, a constant or a type is the scope of.
    #[verifier::opaque]
    pub open spec fn value_kind(
        self,
        taipe: TypeView,
    ) -> ScopeKind
    {
        if taipe.is_typedef() {
            ScopeKind::Typedef
        } else {
            if taipe.is_const() {
                ScopeKind::Const
            } else {
                ScopeKind::Variable
            }
        }
    }

    /// What is known of a variable, a constant or a type.
    #[verifier::opaque]
    pub open spec fn value_payload(
        self,
        ctx: ContextView,
    ) -> PayloadView
    {
        let s = self;
        if ctx.taipe.is_typedef() {
            PayloadView::Typedef(ctx.taipe)
        } else {
            if s.get_current_function().is_none() {
                PayloadView::Global(ctx)
            } else {
                PayloadView::Local(ctx.taipe)
            }
        }
    }

    /// Records in the control flow of the current block that a variable or constant is declared,
    /// and whether it is assigned.
    #[verifier::opaque]
    pub open spec fn record_decl(
        self,
        node: DeclView,
        scope_id: ScopeIdView,
        kind: ScopeKind,
        assigned: bool,
    ) -> (AnalyzerView, Result<(), StopView>)
    {
        let s = self;
        match kind {
            ScopeKind::Variable | ScopeKind::Const => {
                if s.get_current_block().is_none() {
                    (s, Ok(()))
                } else {
                match s.flow_insert(
                    ControlNodeView::Info(ControlInfoView::VarDeclared { scope_id: scope_id }),
                ) { (s, Err(e)) => (s, Err(e)), (s, Ok(_)) => {
                if !assigned {
                    (s, Ok(()))
                } else {
                match node.line() { Err(e) => (s, Err(e)), Ok(line) => {
                s.flow_insert(
                    ControlNodeView::Info(
                        ControlInfoView::VarAssigned { line_info: line, scope_id: scope_id },
                    ),
                )
                }}}}}}
            },
            _ => {
                (s, Ok(()))
            },
        }
    }

    /// Completes the visit of a variable, a constant or a type.
    #[verifier::opaque]
    pub open spec fn finish_decl(
        self,
        node: DeclView,
        scope_id: ScopeIdView,
        ctx: ContextView,
        assigned: bool,
    ) -> (AnalyzerView, Result<ScopeIdView, StopView>)
    {
        let s = self;
        let kind = s.value_kind(ctx.taipe);
        let s = s.set_kind(scope_id, kind);
        let payload = s.value_payload(ctx);
        let s = s.set_payload(scope_id, payload);
        match s.record_decl(node, scope_id, kind, assigned) {
            (s, Err(e)) => (s, Err(e)), (s, Ok(_)) => {
        let s = s.set_scope_eval_state(scope_id, ScopeEvalStateView::Visited);
        (s, Ok(scope_id))
        }}
    }
}

impl<'a> Analyzer<'a> {
    /// The name of a new symbol: an unnamed one gets a name that no other one can have.
    pub(crate) fn sym_name(
        &mut self,
        name: &Token,
    ) -> (r: Result<String, Stop>)
        requires
            old(self)@.wf(),
        ensures
            (final(self)@, outcome(r)) == old(self)@.sym_name(name@),
            final(self)@.follows(old(self)@),
            final(self)@.stack == old(self)@.stack,
    {
        broadcast use group_analyzer;

        proof {
            lemma_begin(self@);
            reveal(AnalyzerView::sym_name);
        }
        match name.kind {
            TokenKind::Underscore => {
                let count: u64 = self.next_unique();
                Ok(join2(&join2("unnamed", &count_text(count)), "$"))
            },
            _ => {
                Ok(name.text.clone())
            },
        }
    }

    /// The symbol of the current scope that a declaration repeats, if there is one.
    pub(crate) fn repeated(
        &self,
        name: &Token,
    ) -> (r: Result<Option<ScopeId>, Stop>)
        requires
            self@.wf(),
        ensures
            option_outcome(r) == self@.repeated(name@),
            r matches Ok(Some(id)) ==> self@.is_child(self@.current_id(), id@),
    {
        broadcast use group_analyzer;

        proof {
            reveal(AnalyzerView::repeated);
        }
        match name.kind {
            TokenKind::Underscore => {
                Ok(None)
            },
            _ => {
                let current = self.current_id();
                self.find_child(&current, &name.text)
            },
        }
    }

    /// The reports on a symbol that is declared twice.
    pub(crate) fn redeclared(
        &self,
        name: &Token,
        previous: &ScopeId,
    ) -> (r: Result<ScopeId, Stop>)
        requires
            self@.wf(),
        ensures
            outcome(r) == self@.redeclared(name@, previous@),
            r is Err,
    {
        broadcast use group_analyzer;

        proof {
            reveal(AnalyzerView::redeclared);
        }
        let line = match self.scope_line(previous) {
            Ok(v) => v,
            Err(e) => {
                return Err(e);
            },
        };
        Err(Stop::Errors(CompileError::pair(
                self.make_err("redeclaration of symbol", name.line_info),
                self.make_note("already declared here", line))))
    }

    /// Adds a symbol for a declaration to the current scope.
    pub(crate) fn add_symbol(
        &mut self,
        node: &'a Decl,
        name: &Token,
    ) -> (r: Result<ScopeId, Stop>)
        requires
            old(self)@.wf(),
        ensures
            (final(self)@, outcome(r)) == old(self)@.add_symbol(node@, name@),
            final(self)@.follows(old(self)@),
            final(self)@.stack == old(self)@.stack,
            r matches Ok(id) ==> final(self)@.is_child(old(self)@.current_id(), id@),
    {
        broadcast use group_analyzer;

        proof {
            lemma_begin(self@);
            reveal(AnalyzerView::add_symbol);
        }
        let sym = match self.sym_name(name) {
            Ok(v) => v,
            Err(e) => {
                return Err(e);
            },
        };
        let parent = self.current_id();
        let id = self.add_child_scope(
            &parent,
            ScopeKind::Unknown,
            &sym,
            ScopeEvalState::NotVisited(ScopeNode::Decl(node)),
            Payload::Unknown,
            name.line_info,
        );
        Ok(id)
    }

    /// Declares a symbol without a value.
    pub(crate) fn declare_sym(
        &mut self,
        node: &'a Decl,
        name: &Token,
    ) -> (r: Result<ScopeId, Stop>)
        requires
            old(self)@.wf(),
        ensures
            (final(self)@, outcome(r)) == old(self)@.declare_sym(node@, name@),
            final(self)@.follows(old(self)@),
            final(self)@.stack == old(self)@.stack,
            r matches Ok(id) ==> final(self)@.is_child(old(self)@.current_id(), id@),
    {
        broadcast use group_analyzer;

        proof {
            lemma_begin(self@);
            reveal(AnalyzerView::declare_sym);
        }
        let previous = match self.repeated(name) {
            Ok(v) => v,
            Err(e) => {
                return Err(e);
            },
        };
        match previous {
            Some(id) => {
                self.redeclared(name, &id)
            },
            None => {
                self.add_symbol(node, name)
            },
        }
    }

    /// Declares a symbol with a value. Modules with the same name are one module.
    pub(crate) fn declare_sym_with_value(
        &mut self,
        node: &'a Decl,
        name: &Token,
        object: &'a Object,
    ) -> (r: Result<ScopeId, Stop>)
        requires
            old(self)@.wf(),
        ensures
            (final(self)@, outcome(r)) == old(self)@.declare_sym_with_value(node@, name@, object@),
            final(self)@.follows(old(self)@),
            final(self)@.stack == old(self)@.stack,
            r matches Ok(id) ==> final(self)@.is_child(old(self)@.current_id(), id@),
    {
        broadcast use group_analyzer;

        proof {
            lemma_begin(self@);
            reveal(AnalyzerView::declare_sym_with_value);
            reveal(ast::Decl::model);
        }
        proof {
            reveal(ast::Object::model);
        }
        let previous = match self.repeated(name) {
            Ok(v) => v,
            Err(e) => {
                return Err(e);
            },
        };
        match previous {
            None => {
                self.add_symbol(node, name)
            },
            Some(id) => {
                if !object.is_module() {
                    return self.redeclared(name, &id);
                }
                let state = match self.get_scope_eval_state(&id) {
                    Ok(v) => v,
                    Err(e) => {
                        return Err(e);
                    },
                };
                let scope = match self.get_scope(&id) {
                    Ok(v) => v,
                    Err(e) => {
                        return Err(e);
                    },
                };
                match state {
                    ScopeEvalState::Visited => {
                        match scope.kind {
                            ScopeKind::Module => {
                                Ok(id)
                            },
                            _ => {
                                self.redeclared(name, &id)
                            },
                        }
                    },
                    ScopeEvalState::NotVisited(earlier) => {
                        match earlier {
                            ScopeNode::Decl(decl) => {
                                match decl {
                                    Decl::Decl {
                                        name: _,
                                        taipe: _,
                                        eq_token: _,
                                        object: Some(held),
                                    } => {
                                        if held.is_module() {
                                            Ok(id)
                                        } else {
                                            self.redeclared(name, &id)
                                        }
                                    },
                                    _ => {
                                        self.redeclared(name, &id)
                                    },
                                }
                            },
                            ScopeNode::Object(_) => {
                                self.redeclared(name, &id)
                            },
                        }
                    },
                    ScopeEvalState::VisitInProgress => {
                        self.redeclared(name, &id)
                    },
                }
            },
        }
    }

    /// Declares a parameter of the current function.
    pub(crate) fn declare_param(
        &mut self,
        param: ParamInfo,
        name: &Token,
    ) -> (r: Result<ScopeId, Stop>)
        requires
            old(self)@.wf(),
        ensures
            (final(self)@, outcome(r)) == old(self)@.declare_param(param@, name@),
            final(self)@.follows(old(self)@),
            final(self)@.stack == old(self)@.stack,
    {
        broadcast use group_analyzer;

        proof {
            lemma_begin(self@);
            reveal(AnalyzerView::declare_param);
        }
        let previous = match self.repeated(name) {
            Ok(v) => v,
            Err(e) => {
                return Err(e);
            },
        };
        match previous {
            Some(id) => {
                self.redeclared(name, &id)
            },
            None => {
                let sym = match self.sym_name(name) {
                    Ok(v) => v,
                    Err(e) => {
                        return Err(e);
                    },
                };
                let parent = self.current_id();
                let id = self.add_child_scope(
                    &parent,
                    ScopeKind::Param,
                    &sym,
                    ScopeEvalState::Visited,
                    Payload::Param(param),
                    name.line_info,
                );
                Ok(id)
            },
        }
    }

    /// Declares what a declaration gives a name to, without visiting it.
    pub(crate) fn pre_declare_decl(
        &mut self,
        decl: &'a Decl,
    ) -> (r: Result<ScopeId, Stop>)
        requires
            old(self)@.wf(),
        ensures
            (final(self)@, outcome(r)) == old(self)@.pre_declare_decl(decl@),
            final(self)@.follows(old(self)@),
            final(self)@.stack == old(self)@.stack,
            r matches Ok(id) ==> final(self)@.is_child(old(self)@.current_id(), id@),
    {
        broadcast use group_analyzer;

        proof {
            lemma_begin(self@);
            reveal(AnalyzerView::pre_declare_decl);
            reveal(ast::Decl::model);
        }
        proof {
            reveal(ast::Object::model);
        }
        match decl {
            Decl::Decl { name, taipe: _, eq_token: _, object } => {
                match object {
                    Some(value) => {
                        self.declare_sym_with_value(decl, name, value)
                    },
                    None => {
                        self.declare_sym(decl, name)
                    },
                }
            },
            Decl::DeclWithDirective { name, taipe: _, eq_token: _, directive: _ } => {
                self.declare_sym(decl, name)
            },
            Decl::Using { line_info: _, items: _ } => {
                Err(Stop::Unsupported("import statements are not yet supported".to_owned()))
            },
        }
    }

    /// The symbol of a declaration that is visited. Outside of blocks it may be declared already.
    pub(crate) fn declared_scope(
        &mut self,
        node: &'a Decl,
        name: &Token,
    ) -> (r: Result<ScopeId, Stop>)
        requires
            old(self)@.wf(),
        ensures
            (final(self)@, outcome(r)) == old(self)@.declared_scope(node@, name@),
            final(self)@.follows(old(self)@),
            final(self)@.stack == old(self)@.stack,
            r matches Ok(id) ==> final(self)@.is_child(old(self)@.current_id(), id@),
    {
        broadcast use group_analyzer;

        proof {
            lemma_begin(self@);
            reveal(AnalyzerView::declared_scope);
        }
        if self.get_current_block().is_some() {
            return self.pre_declare_decl(node);
        }
        let current = self.current_id();
        let found = match self.find_child(&current, &name.text) {
            Ok(v) => v,
            Err(e) => {
                return Err(e);
            },
        };
        match found {
            Some(id) => {
                Ok(id)
            },
            None => {
                self.pre_declare_decl(node)
            },
        }
    }

    /// Records that the visit of a scope has begun.
    pub(crate) fn begin_visit(
        &mut self,
        scope_id: &ScopeId,
    ) -> (r: Result<(), Stop>)
        requires
            old(self)@.wf(),
        ensures
            (final(self)@, outcome(r)) == old(self)@.begin_visit(scope_id@),
            final(self)@.follows(old(self)@),
            final(self)@.stack == old(self)@.stack,
    {
        broadcast use group_analyzer;

        proof {
            lemma_begin(self@);
            reveal(AnalyzerView::begin_visit);
        }
        let state = match self.get_scope_eval_state(scope_id) {
            Ok(v) => v,
            Err(e) => {
                return Err(e);
            },
        };
        match state {
            ScopeEvalState::NotVisited(_) => {
                self.set_scope_eval_state(scope_id, ScopeEvalState::VisitInProgress);
                Ok(())
            },
            _ => {
                Err(Stop::Unsupported("probably some analyzer bug".to_owned()))
            },
        }
    }

    /// Keeps a report if a constant is not declared with a colon.
    pub(crate) fn check_colon(
        &mut self,
        eq_token: &Option<Token>,
    ) -> (r: Result<(), Stop>)
        requires
            old(self)@.wf(),
        ensures
            (final(self)@, outcome(r)) == old(self)@.check_colon(option_token_model(*eq_token)),
            final(self)@.follows(old(self)@),
            final(self)@.stack == old(self)@.stack,
    {
        broadcast use group_analyzer;

        proof {
            lemma_begin(self@);
            reveal(AnalyzerView::check_colon);
        }
        let Some(token) = eq_token else {
            return Err(Stop::Unsupported("probably some parser bug".to_owned()));
        };
        match token.kind {
            TokenKind::Colon => {
                Ok(())
            },
            _ => {
                let err = self.make_err("expected ':'", token.line_info);
                self.save_error(err);
                Ok(())
            },
        }
    }

    /// What a variable, a constant or a type is the scope of.
    pub(crate) fn value_kind(
        &self,
        taipe: &Type,
    ) -> (r: ScopeKind)
        requires
            self@.wf(),
        ensures
            r == self@.value_kind(taipe@),
    {
        broadcast use group_analyzer;

        proof {
            reveal(AnalyzerView::value_kind);
        }
        if taipe.is_typedef() {
            ScopeKind::Typedef
        } else if taipe.is_const() {
            ScopeKind::Const
        } else {
            ScopeKind::Variable
        }
    }

    /// What is known of a variable, a constant or a type.
    pub(crate) fn value_payload(
        &self,
        ctx: Context,
    ) -> (r: Payload)
        requires
            self@.wf(),
        ensures
            r@ == self@.value_payload(ctx@),
    {
        broadcast use group_analyzer;

        proof {
            reveal(AnalyzerView::value_payload);
            reveal(Context::model);
            reveal(Value::model);
        }
        if ctx.taipe.is_typedef() {
            Payload::Typedef(ctx.taipe)
        } else if self.get_current_function().is_none() {
            Payload::Global(ctx)
        } else {
            Payload::Local(ctx.taipe)
        }
    }

    /// Records in the control flow of the current block that a variable or constant is declared,
    /// and whether it is assigned.
    pub(crate) fn record_decl(
        &mut self,
        node: &'a Decl,
        scope_id: &ScopeId,
        kind: ScopeKind,
        assigned: bool,
    ) -> (r: Result<(), Stop>)
        requires
            old(self)@.wf(),
        ensures
            (final(self)@, outcome(r)) == old(self)@.record_decl(node@, scope_id@, kind, assigned),
            final(self)@.follows(old(self)@),
            final(self)@.stack == old(self)@.stack,
    {
        broadcast use group_analyzer;

        proof {
            lemma_begin(self@);
            reveal(AnalyzerView::record_decl);
        }
        match kind {
            ScopeKind::Variable | ScopeKind::Const => {
                if self.get_current_block().is_none() {
                    return Ok(());
                }
                match self.flow_insert(
                    ControlNode::Info(ControlInfo::VarDeclared { scope_id: scope_id.copy() }),
                ) {
                    Ok(_) => {},
                    Err(e) => {
                        return Err(e);
                    },
                }
                if !assigned {
                    return Ok(());
                }
                let line = match line_of(node) {
                    Ok(v) => v,
                    Err(e) => {
                        return Err(e);
                    },
                };
                self.flow_insert(
                    ControlNode::Info(
                        ControlInfo::VarAssigned { line_info: line, scope_id: scope_id.copy() },
                    ),
                )
            },
            _ => {
                Ok(())
            },
        }
    }

    /// Completes the visit of a variable, a constant or a type.
    pub(crate) fn finish_decl(
        &mut self,
        node: &'a Decl,
        scope_id: ScopeId,
        ctx: Context,
        assigned: bool,
    ) -> (r: Result<ScopeId, Stop>)
        requires
            old(self)@.wf(),
        ensures
            (final(self)@, outcome(r)) == old(self)@.finish_decl(node@, scope_id@, ctx@, assigned),
            final(self)@.follows(old(self)@),
            final(self)@.stack == old(self)@.stack,
            r matches Ok(id) ==> id@ == scope_id@ && (0 <= id@.index < old(self)@.states.len()
                ==> final(self)@.is_visited(id@)),
    {
        broadcast use group_analyzer;

        proof {
            lemma_begin(self@);
            reveal(AnalyzerView::finish_decl);
            reveal(Context::model);
            reveal(Value::model);
        }
        let kind = self.value_kind(&ctx.taipe);
        self.set_kind(&scope_id, kind);
        let payload = self.value_payload(ctx);
        self.set_payload(&scope_id, payload);
        match self.record_decl(node, &scope_id, kind, assigned) {
            Ok(_) => {},
            Err(e) => {
                return Err(e);
            },
        }
        self.set_scope_eval_state(&scope_id, ScopeEvalState::Visited);
        Ok(scope_id)
    }
}

} // verus!
