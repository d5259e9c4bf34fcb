use vstd::prelude::*;

use crate::ast;
use crate::analyzer::{
    group_analyzer, lemma_begin, Analyzer, AnalyzerView, ScopeEvalState, ScopeEvalStateView,
};
use crate::ast::{option_token_model, Decl, DeclView, Expr, ExprView, Field, FieldView};
use crate::common::{
    line_of, option_view, outcome, CompileError, ErrorView, Layout, LineInfo, Span, Stop,
    StopView,
};
use crate::context::{Context, ContextView, Type, TypeView, Value};
use crate::scope::{
    field_models, CompoundInfo, CompoundInfoView, FieldInfo, FieldInfoView, Payload, PayloadView,
    ScopeId, ScopeIdView,
};
use crate::table::{Table, TableView};
use crate::text::join2;
use crate::token::{Token, TokenKind, TokenView};

verus! {

impl AnalyzerView {
    /// Checks that a struct or a union is annotated as a type, if at all.
    #[verifier::opaque]
    pub open spec fn check_typedef(
        self,
        node: DeclView,
        taipe: Option<ast::TypeView>,
        fuel: int,
    ) -> (AnalyzerView, Result<(), StopView>)
        decreases fuel, 6nat, 0int,
    {
        let s = self;
        match taipe {
            None => {
                (s, Ok(()))
            },
            Some(annotation) => {
                match s.visit_type(annotation, fuel) {
                    (s, Err(e)) => (s, Err(e)), (s, Ok(found)) => {
                match found {
                    TypeView::Typedef => {
                        (s, Ok(()))
                    },
                    _ => {
                        match node.line() { Err(e) => (s, Err(e)), Ok(line) => {
                        (s, Err(StopView::Errors(s.make_err("expected 'typedef'"@, line))))
                        }}
                    },
                }
                }}
            },
        }
    }

    /// Visits a struct or a union.
    #[verifier::opaque]
    pub open spec fn visit_compound(
        self,
        scope_id: ScopeIdView,
        field: FieldView,
        fuel: int,
    ) -> (AnalyzerView, Result<ScopeIdView, StopView>)
        decreases fuel, 7nat, 0int,
    {
        let s = self;
        match s.push_current_scope(scope_id) { (s, Err(e)) => (s, Err(e)), (s, Ok(_)) => {
        let s = s.set_scope_eval_state(scope_id, ScopeEvalStateView::Visited);
        match s.get_fields(field, fuel) { (s, Err(e)) => (s, Err(e)), (s, Ok(info)) => {
        let s = s.set_payload(
            scope_id,
            PayloadView::Compound(
                CompoundInfoView {
                    field: info,
                    layout: Layout { size: 1, alignment: 1 },
                    field_data_table: TableView::empty(),
                },
            ),
        );
        match s.resolve_layout_scope(scope_id, 0xffff_ffff_ffff_ffff) {
            (s, Err(e)) => (s, Err(e)), (s, Ok(layout)) => {
        let s = s.pop_current_scope();
        (s, Ok(scope_id))
        }}}}}}
    }

    /// The fields of a struct or a union.
    #[verifier::opaque]
    pub open spec fn get_fields(
        self,
        field: FieldView,
        fuel: int,
    ) -> (AnalyzerView, Result<FieldInfoView, StopView>)
        decreases fuel, 6nat, 0int,
    {
        let s = self;
        s.get_fields_impl(field, false, fuel)
    }

    /// The fields of a struct or a union, or a single field. A struct or a union that is the only
    /// field of another one is refused.
    #[verifier::opaque]
    pub open spec fn get_fields_impl(
        self,
        field: FieldView,
        is_alone: bool,
        fuel: int,
    ) -> (AnalyzerView, Result<FieldInfoView, StopView>)
        decreases fuel, 5nat, 0int,
    {
        let s = self;
        if fuel <= 0 {
            (s, Err(StopView::Unsupported("nested too deeply"@)))
        } else {
        match field {
            FieldView::Compound { line_info: _, token, fields } => {
                if is_alone {
                    (
                        s,
                        Err(
                            StopView::Errors(
                                s.make_err("inner scope shadows outer scope"@, token.line_info),
                            ),
                        ),
                    )
                } else {
                match token.kind {
                    TokenKind::Struct => {
                        s.get_field_list(fields, true, seq![], fuel - 1, 0)
                    },
                    TokenKind::Union => {
                        s.get_field_list(fields, false, seq![], fuel - 1, 0)
                    },
                    _ => {
                        (s, Err(StopView::Unsupported("probably some parser bug"@)))
                    },
                }
                }
            },
            FieldView::Decl { name, taipe, eq_token, expr } => {
                match s.visit_type(taipe, fuel - 1) {
                    (s, Err(e)) => (s, Err(e)), (s, Ok(found)) => {
                match taipe.line() { Err(e) => (s, Err(e)), Ok(line) => {
                match expr {
                    Some(value) => {
                        s.field_with_value(name, found, line, eq_token, value, fuel - 1)
                    },
                    None => {
                        if eq_token.is_some() {
                            (s, Err(StopView::Unsupported("probably some parser bug"@)))
                        } else {
                        match s.get_default_value(found, line) {
                            Err(e) => (s, Err(e)), Ok(default) => {
                        match s.resolve_assign(
                            Some((found, line)),
                            None,
                            Some((default, name.line_info)),
                        ) { Err(e) => (s, Err(e)), Ok(ctx) => {
                        (s, s.checked_field(name, ctx, line))
                        }}}}}
                    },
                }
                }}}}
            },
        }
        }
    }

    /// Visits a field with a value.
    #[verifier::opaque]
    pub open spec fn field_with_value(
        self,
        name: TokenView,
        found: TypeView,
        line: Span,
        eq_token: Option<TokenView>,
        value: ExprView,
        fuel: int,
    ) -> (AnalyzerView, Result<FieldInfoView, StopView>)
        decreases fuel, 6nat, 0int,
    {
        let s = self;
        let (s, result) = s.visit_expr(value, fuel);
        match result {
            Ok(rhs) => {
                match s.compeval_trivial(rhs) { Err(e) => (s, Err(e)), Ok(rhs) => {
                match value.line() { Err(e) => (s, Err(e)), Ok(value_line) => {
                match s.resolve_assign(Some((found, line)), eq_token, Some((rhs, value_line))) {
                    Err(e) => (s, Err(e)), Ok(ctx) => {
                (s, s.checked_field(name, ctx, line))
                }}}}}}
            },
            Err(StopView::Errors(ErrorView::SemCyclic { file_path, line_info })) => {
                (
                    s,
                    Err(
                        StopView::Errors(
                            ErrorView::pair(
                                s.make_err(
                                    "inference is ambiguous, encountered cyclic references"@,
                                    name.line_info,
                                ),
                                s.make_note_with_path(
                                    "another one declared here"@,
                                    file_path,
                                    line_info,
                                ),
                            ),
                        ),
                    ),
                )
            },
            Err(e) => {
                (s, Err(e))
            },
        }
    }

    /// Checks that a field has a type that fields can have.
    #[verifier::opaque]
    pub open spec fn checked_field(
        self,
        name: TokenView,
        ctx: ContextView,
        line: Span,
    ) -> Result<FieldInfoView, StopView>
    {
        let s = self;
        match ctx.taipe {
            TypeView::Const(_) | TypeView::Module | TypeView::Typedef | TypeView::Noreturn => {
                Err(
                    StopView::Errors(
                        s.make_err(
                            ("'"@ + ctx.taipe.to_text() + "' cannot be used as a type of a field"@),
                            line,
                        ),
                    ),
                )
            },
            taipe => {
                Ok(
                    FieldInfoView::Field {
                        file_path: s.get_current_src_path(),
                        line_info: name.line_info,
                        name: name.text,
                        taipe: taipe,
                    },
                )
            },
        }
    }

    /// The fields of a struct or a union, those that were visited and the remaining ones.
    #[verifier::opaque]
    pub open spec fn get_field_list(
        self,
        fields: Seq<FieldView>,
        is_struct: bool,
        infos: Seq<FieldInfoView>,
        fuel: int,
        i: int,
    ) -> (AnalyzerView, Result<FieldInfoView, StopView>)
        decreases fuel, 6nat, fields.len() - i,
    {
        let s = self;
        if i < 0 || i >= fields.len() {
            if is_struct {
                (s, Ok(FieldInfoView::Struct(infos)))
            } else {
            (s, Ok(FieldInfoView::Union(infos)))
            }
        } else {
        match s.get_fields_impl(fields[i], fields.len() == 1, fuel) {
            (s, Err(e)) => (s, Err(e)), (s, Ok(info)) => {
        s.get_field_list(fields, is_struct, infos.push(info), fuel, i + 1)
        }}}
    }
}

impl<'a> Analyzer<'a> {
    /// Checks that a struct or a union is annotated as a type, if at all.
    pub(crate) fn check_typedef(
        &mut self,
        node: &'a Decl,
        taipe: &'a Option<ast::Type>,
        fuel: u64,
    ) -> (r: Result<(), Stop>)
        requires
            old(self)@.wf(),
        ensures
            (final(self)@, outcome(r)) == old(self)@.check_typedef(
                node@,
                option_view(*taipe),
                fuel as int,
            ),
            final(self)@.follows(old(self)@),
        decreases fuel, 6nat,
    {
        broadcast use group_analyzer;

        proof {
            lemma_begin(self@);
            reveal(AnalyzerView::check_typedef);
            reveal(AnalyzerView::visit_type);
        }
        match taipe {
            None => {
                Ok(())
            },
            Some(annotation) => {
                let found = match self.visit_type(annotation, fuel) {
                    Ok(v) => v,
                    Err(e) => {
                        return Err(e);
                    },
                };
                match found {
                    Type::Typedef => {
                        Ok(())
                    },
                    _ => {
                        let line = match line_of(node) {
                            Ok(v) => v,
                            Err(e) => {
                                return Err(e);
                            },
                        };
                        Err(Stop::Errors(self.make_err("expected 'typedef'", line)))
                    },
                }
            },
        }
    }

    /// Visits a struct or a union.
    pub(crate) fn visit_compound(
        &mut self,
        scope_id: ScopeId,
        field: &'a Field,
        fuel: u64,
    ) -> (r: Result<ScopeId, Stop>)
        requires
            old(self)@.wf(),
        ensures
            (final(self)@, outcome(r)) == old(self)@.visit_compound(scope_id@, field@, fuel as int),
            final(self)@.follows(old(self)@),
            r matches Ok(id) ==> id@ == scope_id@ && (0 <= id@.index < old(self)@.states.len()
                ==> final(self)@.is_visited(id@)),
        decreases fuel, 7nat,
    {
        broadcast use group_analyzer;

        proof {
            lemma_begin(self@);
            reveal(AnalyzerView::visit_compound);
            reveal(AnalyzerView::get_fields);
        }
        match self.push_current_scope(&scope_id) {
            Ok(_) => {},
            Err(e) => {
                return Err(e);
            },
        }
        self.set_scope_eval_state(&scope_id, ScopeEvalState::Visited);
        proof {
            if 0 <= scope_id@.index < self@.states.len() {
                        assert(self@.is_visited(scope_id@));
                    }
        }
        let info = match self.get_fields(field, fuel) {
            Ok(v) => v,
            Err(e) => {
                return Err(e);
            },
        };
        self.set_payload(
            &scope_id,
            Payload::Compound(
                CompoundInfo {
                    field: info,
                    layout: Layout { size: 1, alignment: 1 },
                    field_data_table: Table::empty(),
                },
            ),
        );
        let layout = match self.resolve_layout_scope(&scope_id, 0xffff_ffff_ffff_ffff) {
            Ok(v) => v,
            Err(e) => {
                return Err(e);
            },
        };
        self.pop_current_scope();
        Ok(scope_id)
    }

    /// The fields of a struct or a union.
    pub(crate) fn get_fields(
        &mut self,
        field: &'a Field,
        fuel: u64,
    ) -> (r: Result<FieldInfo, Stop>)
        requires
            old(self)@.wf(),
        ensures
            (final(self)@, outcome(r)) == old(self)@.get_fields(field@, fuel as int),
            final(self)@.follows(old(self)@),
        decreases fuel, 6nat,
    {
        broadcast use group_analyzer;

        proof {
            lemma_begin(self@);
            reveal(AnalyzerView::get_fields);
            reveal(AnalyzerView::get_fields_impl);
        }
        self.get_fields_impl(field, false, fuel)
    }

    /// The fields of a struct or a union, or a single field. A struct or a union that is the only
    /// field of another one is refused.
    pub(crate) fn get_fields_impl(
        &mut self,
        field: &'a Field,
        is_alone: bool,
        fuel: u64,
    ) -> (r: Result<FieldInfo, Stop>)
        requires
            old(self)@.wf(),
        ensures
            (final(self)@, outcome(r)) == old(self)@.get_fields_impl(field@, is_alone, fuel as int),
            final(self)@.follows(old(self)@),
        decreases fuel, 5nat,
    {
        broadcast use group_analyzer;

        proof {
            lemma_begin(self@);
            reveal(AnalyzerView::get_fields_impl);
            reveal(AnalyzerView::field_with_value);
            reveal(AnalyzerView::get_field_list);
            reveal(AnalyzerView::visit_type);
            reveal(ast::Field::model);
            reveal(ast::Type::model);
        }
        proof {
            reveal(ast::Type::model);
                    reveal(ast::Expr::model);
                    assert(
                        field_models(Seq::<FieldInfo>::empty()) =~= Seq::<FieldInfoView>::empty()
                    );
        }
        if fuel == 0 {
            return Err(Stop::Unsupported("nested too deeply".to_owned()));
        }
        match field {
            Field::Compound { line_info: _, token, fields } => {
                if is_alone {
                    return Err(
                        Stop::Errors(
                            self.make_err("inner scope shadows outer scope", token.line_info),
                        ),
                    );
                }
                match token.kind {
                    TokenKind::Struct => {
                        self.get_field_list(fields, true, Vec::new(), fuel - 1)
                    },
                    TokenKind::Union => {
                        self.get_field_list(fields, false, Vec::new(), fuel - 1)
                    },
                    _ => {
                        Err(Stop::Unsupported("probably some parser bug".to_owned()))
                    },
                }
            },
            Field::Decl { name, taipe, eq_token, expr } => {
                let found = match self.visit_type(taipe, fuel - 1) {
                    Ok(v) => v,
                    Err(e) => {
                        return Err(e);
                    },
                };
                let line = match line_of(taipe) {
                    Ok(v) => v,
                    Err(e) => {
                        return Err(e);
                    },
                };
                match expr {
                    Some(value) => {
                        self.field_with_value(name, found, line, eq_token, value, fuel - 1)
                    },
                    None => {
                        if eq_token.is_some() {
                            return Err(Stop::Unsupported("probably some parser bug".to_owned()));
                        }
                        let default = match self.get_default_value(&found, line) {
                            Ok(v) => v,
                            Err(e) => {
                                return Err(e);
                            },
                        };
                        let ctx = match self.resolve_assign(
                            Some((found, line)),
                            None,
                            Some((default, name.line_info)),
                        ) {
                            Ok(v) => v,
                            Err(e) => {
                                return Err(e);
                            },
                        };
                        self.checked_field(name, ctx, line)
                    },
                }
            },
        }
    }

    /// Visits a field with a value.
    pub(crate) fn field_with_value(
        &mut self,
        name: &Token,
        found: Type,
        line: LineInfo,
        eq_token: &Option<Token>,
        value: &'a Expr,
        fuel: u64,
    ) -> (r: Result<FieldInfo, Stop>)
        requires
            old(self)@.wf(),
        ensures
            (final(self)@, outcome(r)) == old(self)@.field_with_value(
                name@,
                found@,
                line@,
                option_token_model(*eq_token),
                value@,
                fuel as int,
            ),
            final(self)@.follows(old(self)@),
        decreases fuel, 6nat,
    {
        broadcast use group_analyzer;

        proof {
            lemma_begin(self@);
            reveal(AnalyzerView::field_with_value);
            reveal(AnalyzerView::visit_expr);
        }
        match self.visit_expr(value, fuel) {
            Ok(rhs) => {
                let rhs = match self.compeval_trivial(&rhs) {
                    Ok(v) => v,
                    Err(e) => {
                        return Err(e);
                    },
                };
                let value_line = match line_of(value) {
                    Ok(v) => v,
                    Err(e) => {
                        return Err(e);
                    },
                };
                let ctx = match self.resolve_assign(
                    Some((found, line)),
                    eq_token.as_ref(),
                    Some((rhs, value_line)),
                ) {
                    Ok(v) => v,
                    Err(e) => {
                        return Err(e);
                    },
                };
                self.checked_field(name, ctx, line)
            },
            Err(Stop::Errors(CompileError::SemCyclic { file_path, line_info })) => {
                Err(
                    Stop::Errors(
                        CompileError::pair(
                            self.make_err(
                                "inference is ambiguous, encountered cyclic references",
                                name.line_info,
                            ),
                            self.make_note_with_path(
                                "another one declared here",
                                file_path,
                                line_info,
                            ),
                        ),
                    ),
                )
            },
            Err(e) => {
                Err(e)
            },
        }
    }

    /// Checks that a field has a type that fields can have.
    pub(crate) fn checked_field(
        &self,
        name: &Token,
        ctx: Context,
        line: LineInfo,
    ) -> (r: Result<FieldInfo, Stop>)
        requires
            self@.wf(),
        ensures
            outcome(r) == self@.checked_field(name@, ctx@, line@),
    {
        broadcast use group_analyzer;

        proof {
            reveal(AnalyzerView::checked_field);
            reveal(Context::model);
            reveal(Value::model);
        }
        match &ctx.taipe {
            Type::Const(_) | Type::Module | Type::Typedef | Type::Noreturn => {
                Err(
                    Stop::Errors(
                        self.make_err(
                            &join2(
                                &join2("'", &ctx.taipe.to_text()),
                                "' cannot be used as a type of a field",
                            ),
                            line,
                        ),
                    ),
                )
            },
            taipe => {
                Ok(
                    FieldInfo::Field {
                        file_path: self.get_current_src_path(),
                        line_info: name.line_info,
                        name: name.text.clone(),
                        taipe: taipe.copy(),
                    },
                )
            },
        }
    }

    /// The fields of a struct or a union, those that were visited and the remaining ones.
    #[verifier::loop_isolation(false)]
    pub(crate) fn get_field_list(
        &mut self,
        fields: &'a Vec<Field>,
        is_struct: bool,
        infos: Vec<FieldInfo>,
        fuel: u64,
    ) -> (r: Result<FieldInfo, Stop>)
        requires
            old(self)@.wf(),
        ensures
            (final(self)@, outcome(r)) == old(self)@.get_field_list(
                ast::field_models(fields@),
                is_struct,
                field_models(infos@),
                fuel as int,
                0,
            ),
            final(self)@.follows(old(self)@),
        decreases fuel, 6nat,
    {
        broadcast use group_analyzer;

        proof {
            lemma_begin(self@);
            reveal(AnalyzerView::get_field_list);
            reveal(AnalyzerView::get_fields_impl);
        }
        let ghost goal = self@.get_field_list(
            ast::field_models(fields@),
            is_struct,
            field_models(infos@),
            fuel as int,
            0,
        );
        let ghost begin = self@;
        let mut infos: Vec<FieldInfo> = infos;
        let mut i: usize = 0;
        while i < fields.len()
            invariant
                i <= fields@.len(),
                goal == self@.get_field_list(
                    ast::field_models(fields@),
                    is_struct,
                    field_models(infos@),
                    fuel as int,
                    i as int,
                ),
                self@.follows(begin),
                self@.comes_from(begin),
            decreases fields@.len() - i,
        {
            proof {
                reveal(AnalyzerView::get_field_list);
                reveal(AnalyzerView::get_fields_impl);
            }
            let info = match self.get_fields_impl(&fields[i], fields.len() == 1, fuel) {
                Ok(v) => v,
                Err(e) => {
                    return Err(e);
                },
            };
            infos.push(info);
            i = i + 1;
        }
        if is_struct {
            return Ok(FieldInfo::Struct(infos));
        }
        Ok(FieldInfo::Union(infos))
    }
}

} // verus!
