use vstd::prelude::*;

use crate::ast;
use crate::analyzer::{group_analyzer, lemma_begin, Analyzer, AnalyzerView};
use crate::common::{
    line_of, outcome, span_from, CompileError, ErrorView, LineInfo, Span, Stop, StopView,
};
use crate::context::{
    param_models, type_models, Context, ContextView, Imm, ImmView, Param, ParamView, Type,
    TypeView, Value, ValueView,
};
use crate::text::join2;
use crate::token::{token_models, Token, TokenKind, TokenView};

verus! {

impl AnalyzerView {
    /// Checks that a type can be returned.
    #[verifier::opaque]
    pub open spec fn validate_fun_ret_type(
        self,
        taipe: TypeView,
        node: ast::TypeView,
    ) -> Result<(), StopView>
    {
        let s = self;
        match taipe {
            TypeView::Module => {
                match node.line() { Err(e) => Err(e), Ok(line) => {
                Err(StopView::Errors(s.make_err("'module' cannot be a return type"@, line)))
                }}
            },
            TypeView::Typedef => {
                match node.line() { Err(e) => Err(e), Ok(line) => {
                Err(StopView::Errors(s.make_err("'typedef' cannot be a return type"@, line)))
                }}
            },
            _ => {
                Ok(())
            },
        }
    }

    /// Checks that a type can be that of a parameter.
    #[verifier::opaque]
    pub open spec fn validate_param_type(
        self,
        taipe: TypeView,
        node: ast::TypeView,
    ) -> Result<(), StopView>
    {
        let s = self;
        match taipe {
            TypeView::Module | TypeView::Void => {
                match node.line() { Err(e) => Err(e), Ok(line) => {
                Err(
                    StopView::Errors(
                        s.make_err(
                            ("'"@ + taipe.to_text() + "' cannot be a parameter type"@),
                            line,
                        ),
                    ),
                )
                }}
            },
            TypeView::Typedef => {
                match node.line() { Err(e) => Err(e), Ok(line) => {
                Err(StopView::Errors(s.make_err("'typedef' cannot be a parameter type"@, line)))
                }}
            },
            _ => {
                Ok(())
            },
        }
    }

    /// Checks that a type can be that of an item of a tuple.
    #[verifier::opaque]
    pub open spec fn validate_item_type(
        self,
        taipe: TypeView,
        node: ast::TypeView,
    ) -> Result<(), StopView>
    {
        let s = self;
        match taipe {
            TypeView::Module | TypeView::Typedef | TypeView::Void => {
                match node.line() { Err(e) => Err(e), Ok(line) => {
                Err(
                    StopView::Errors(
                        s.make_err(("'"@ + taipe.to_text() + "' cannot be a tuple item"@), line),
                    ),
                )
                }}
            },
            _ => {
                Ok(())
            },
        }
    }

    /// The length of an array that an evaluated expression gives.
    #[verifier::opaque]
    pub open spec fn array_length(
        self,
        length: ContextView,
        line: Span,
    ) -> Result<usize, StopView>
    {
        let s = self;
        if !length.taipe.is_unsigned_integer() {
            Err(
                StopView::Errors(
                    ErrorView::pair(
                        s.make_err(
                            "argument of index operator should be an unsigned integer type"@,
                            line,
                        ),
                        s.make_note(("but got '"@ + length.taipe.to_text() + "'"@), line),
                    ),
                ),
            )
        } else {
        match length.value {
            ValueView::Imm(imm) => {
                match s.transform_imm_to_usize(imm, line) { Err(e) => Err(e), Ok(count) => {
                if !count.is_integer() {
                    Err(StopView::Unsupported("probably some analyzer bug"@))
                } else {
                match count.to_usize() { None => {
                    Err(
                        StopView::Errors(
                            s.make_err(
                                ("'usize' cannot hold this value: '"@ + count.to_text() + "'"@),
                                line,
                            ),
                        ),
                    )
                }, Some(count_value) => {
                Ok(count_value)
                }}}}}
            },
            _ => {
                Err(
                    StopView::Errors(
                        s.make_err("value cannot be evaluated at compile time"@, line),
                    ),
                )
            },
        }
        }
    }

    /// The type that a type as it is written stands for.
    #[verifier::opaque]
    pub open spec fn visit_type(
        self,
        node: ast::TypeView,
        fuel: int,
    ) -> (AnalyzerView, Result<TypeView, StopView>)
        decreases fuel, 5nat, 0int,
    {
        let s = self;
        if fuel <= 0 {
            (s, Err(StopView::Unsupported("nested too deeply"@)))
        } else {
        match node {
            ast::TypeView::Path { items } => {
                if items.len() == 0 {
                    (s, Err(StopView::Unsupported("index out of bounds"@)))
                } else {
                match s.get_name(items[0], fuel - 1) { (s, Err(e)) => (s, Err(e)), (s, Ok(ctx)) => {
                match node.line() { Err(e) => (s, Err(e)), Ok(line) => {
                s.visit_path(items, line, ctx, fuel - 1, 0)
                }}}}}
            },
            ast::TypeView::Function { line_info: _, params, ret: result } => {
                s.visit_fun_type(params, *result, seq![], fuel - 1, 0)
            },
            ast::TypeView::Const { token, taipe: inner } => {
                match s.visit_type(*inner, fuel - 1) {
                    (s, Err(e)) => (s, Err(e)), (s, Ok(taipe)) => {
                match taipe {
                    TypeView::Const(_) => {
                        (s, Err(StopView::Unsupported("already handled in the parser"@)))
                    },
                    _ => {
                        if taipe.is_const() {
                            let warning = s.make_warning(
                                (
                                    "'const' is redundant here, '"@
                                        + taipe.to_text()
                                        + "' is always a constant"@
                                ),
                                token.line_info,
                            );
                            let help = s.make_help("remove const qualifier"@);
                            let s = s.warn(warning);
                            let s = s.warn(help);
                            (s, Ok(taipe))
                        } else {
                            (s, Ok(TypeView::Const(Box::new(taipe))))
                        }
                    },
                }
                }}
            },
            ast::TypeView::Pointer { token: _, taipe: inner } => {
                match s.visit_type(*inner, fuel - 1) {
                    (s, Err(e)) => (s, Err(e)), (s, Ok(taipe)) => {
                match taipe {
                    TypeView::Module => {
                        match (*inner).line() { Err(e) => (s, Err(e)), Ok(line) => {
                        (
                            s,
                            Err(
                                StopView::Errors(
                                    s.make_err("pointer to 'module' is invalid"@, line),
                                ),
                            ),
                        )
                        }}
                    },
                    TypeView::Typedef => {
                        match (*inner).line() { Err(e) => (s, Err(e)), Ok(line) => {
                        (
                            s,
                            Err(
                                StopView::Errors(
                                    s.make_err("pointer to 'typedef' is invalid"@, line),
                                ),
                            ),
                        )
                        }}
                    },
                    _ => {
                        (s, Ok(TypeView::Pointer(Box::new(taipe))))
                    },
                }
                }}
            },
            ast::TypeView::Array { line_info: _, taipe: inner, expr } => {
                match s.visit_type(*inner, fuel - 1) {
                    (s, Err(e)) => (s, Err(e)), (s, Ok(taipe)) => {
                match expr {
                    None => {
                        match node.line() { Err(e) => (s, Err(e)), Ok(line) => {
                        (
                            s,
                            Err(
                                StopView::Errors(
                                    s.make_err("array length must be specified"@, line),
                                ),
                            ),
                        )
                        }}
                    },
                    Some(length) => {
                        match s.visit_expr(length, fuel - 1) {
                            (s, Err(e)) => (s, Err(e)), (s, Ok(ctx)) => {
                        match s.compeval_trivial(ctx) { Err(e) => (s, Err(e)), Ok(ctx) => {
                        match length.line() { Err(e) => (s, Err(e)), Ok(line) => {
                        match s.array_length(ctx, line) { Err(e) => (s, Err(e)), Ok(count) => {
                        (s, Ok(TypeView::Array { count, taipe: Box::new(taipe) }))
                        }}}}}}}}
                    },
                }
                }}
            },
            ast::TypeView::Fat { line_info: _, taipe: inner } => {
                match s.visit_type(*inner, fuel - 1) {
                    (s, Err(e)) => (s, Err(e)), (s, Ok(taipe)) => {
                match taipe {
                    TypeView::Module | TypeView::Typedef => {
                        match (*inner).line() { Err(e) => (s, Err(e)), Ok(line) => {
                        (
                            s,
                            Err(
                                StopView::Errors(
                                    s.make_err(
                                        ("fat pointer to '"@ + taipe.to_text() + "' is invalid"@),
                                        line,
                                    ),
                                ),
                            ),
                        )
                        }}
                    },
                    _ => {
                        (s, Ok(TypeView::Fat(Box::new(taipe))))
                    },
                }
                }}
            },
            ast::TypeView::Paren { line_info: _, taipe: inner } => {
                s.visit_type(*inner, fuel - 1)
            },
            ast::TypeView::Tuple { line_info: _, types } => {
                s.visit_tuple_type(types, seq![], fuel - 1, 0)
            },
            ast::TypeView::Literal(token) => {
                match token.kind {
                    TokenKind::Void => {
                        (s, Ok(TypeView::Void))
                    },
                    TokenKind::Noreturn => {
                        (s, Ok(TypeView::Noreturn))
                    },
                    TokenKind::Typedef => {
                        (s, Ok(TypeView::Typedef))
                    },
                    _ => {
                        (s, Err(StopView::Unsupported("probably some parser bug"@)))
                    },
                }
            },
        }
        }
    }

    /// The type that a path leads to, where the names up to a point lead to a value.
    #[verifier::opaque]
    pub open spec fn visit_path(
        self,
        items: Seq<TokenView>,
        line: Span,
        ctx: ContextView,
        fuel: int,
        i: int,
    ) -> (AnalyzerView, Result<TypeView, StopView>)
        decreases fuel, 6nat, items.len() - i,
    {
        let s = self;
        if i < 0 || i >= items.len() {
            if !ctx.taipe.is_typedef() {
                (
                    s,
                    Err(
                        StopView::Errors(
                            s.make_err(
                                ("expression is not a type: '"@ + ctx.to_text() + "'"@),
                                line,
                            ),
                        ),
                    ),
                )
            } else {
            (s, s.type_value(ctx.value))
            }
        } else {
        if i == 0 {
            s.visit_path(items, line, ctx, fuel, i + 1)
        } else {
        match ctx.taipe.remove_const() {
            TypeView::Module => {
                match ctx.value {
                    ValueView::Imm(ImmView::Module(module)) => {
                        match s.get_member(module, items[i], fuel) {
                            (s, Err(e)) => (s, Err(e)), (s, Ok(member)) => {
                        s.visit_path(items, line, member, fuel, i + 1)
                        }}
                    },
                    _ => {
                        (s, Err(StopView::Unsupported("probably some analyzer bug"@)))
                    },
                }
            },
            _ => {
                (
                    s,
                    Err(
                        StopView::Errors(
                            s.make_err(
                                ("cannot use '.' operator on '"@ + ctx.taipe.to_text() + "'"@),
                                span_from(items[0].line_info, items[i - 1].line_info),
                            ),
                        ),
                    ),
                )
            },
        }
        }}
    }

    /// The type of a function with the given parameters and the remaining ones.
    #[verifier::opaque]
    pub open spec fn visit_fun_type(
        self,
        params: Seq<ast::TypeView>,
        result: ast::TypeView,
        types: Seq<ParamView>,
        fuel: int,
        i: int,
    ) -> (AnalyzerView, Result<TypeView, StopView>)
        decreases fuel, 6nat, params.len() - i,
    {
        let s = self;
        if i < 0 || i >= params.len() {
            match s.visit_type(result, fuel) { (s, Err(e)) => (s, Err(e)), (s, Ok(taipe)) => {
            match s.validate_fun_ret_type(taipe, result) { Err(e) => (s, Err(e)), Ok(_) => {
            (s, Ok(TypeView::Function { ret: Box::new(taipe), params: types }))
            }}}}
        } else {
        match s.visit_type(params[i], fuel) { (s, Err(e)) => (s, Err(e)), (s, Ok(taipe)) => {
        match s.validate_param_type(taipe, params[i]) { Err(e) => (s, Err(e)), Ok(_) => {
        s.visit_fun_type(params, result, types.push(ParamView { taipe }), fuel, i + 1)
        }}}}}
    }

    /// The type of a tuple of the given types and the remaining ones.
    #[verifier::opaque]
    pub open spec fn visit_tuple_type(
        self,
        nodes: Seq<ast::TypeView>,
        types: Seq<TypeView>,
        fuel: int,
        i: int,
    ) -> (AnalyzerView, Result<TypeView, StopView>)
        decreases fuel, 6nat, nodes.len() - i,
    {
        let s = self;
        if i < 0 || i >= nodes.len() {
            (s, Ok(TypeView::Tuple(types)))
        } else {
        match s.visit_type(nodes[i], fuel) { (s, Err(e)) => (s, Err(e)), (s, Ok(taipe)) => {
        match s.validate_item_type(taipe, nodes[i]) { Err(e) => (s, Err(e)), Ok(_) => {
        s.visit_tuple_type(nodes, types.push(taipe), fuel, i + 1)
        }}}}}
    }
}

impl<'a> Analyzer<'a> {
    /// Checks that a type can be returned.
    pub(crate) fn validate_fun_ret_type(
        &self,
        taipe: &Type,
        node: &ast::Type,
    ) -> (r: Result<(), Stop>)
        requires
            self@.wf(),
        ensures
            outcome(r) == self@.validate_fun_ret_type(taipe@, node@),
    {
        broadcast use group_analyzer;

        proof {
            reveal(AnalyzerView::validate_fun_ret_type);
        }
        match taipe {
            Type::Module => {
                let line = match line_of(node) {
                    Ok(v) => v,
                    Err(e) => {
                        return Err(e);
                    },
                };
                Err(Stop::Errors(self.make_err("'module' cannot be a return type", line)))
            },
            Type::Typedef => {
                let line = match line_of(node) {
                    Ok(v) => v,
                    Err(e) => {
                        return Err(e);
                    },
                };
                Err(Stop::Errors(self.make_err("'typedef' cannot be a return type", line)))
            },
            _ => {
                Ok(())
            },
        }
    }

    /// Checks that a type can be that of a parameter.
    pub(crate) fn validate_param_type(
        &self,
        taipe: &Type,
        node: &ast::Type,
    ) -> (r: Result<(), Stop>)
        requires
            self@.wf(),
        ensures
            outcome(r) == self@.validate_param_type(taipe@, node@),
    {
        broadcast use group_analyzer;

        proof {
            reveal(AnalyzerView::validate_param_type);
        }
        match taipe {
            Type::Module | Type::Void => {
                let line = match line_of(node) {
                    Ok(v) => v,
                    Err(e) => {
                        return Err(e);
                    },
                };
                Err(
                    Stop::Errors(
                        self.make_err(
                            &join2(&join2("'", &taipe.to_text()), "' cannot be a parameter type"),
                            line,
                        ),
                    ),
                )
            },
            Type::Typedef => {
                let line = match line_of(node) {
                    Ok(v) => v,
                    Err(e) => {
                        return Err(e);
                    },
                };
                Err(Stop::Errors(self.make_err("'typedef' cannot be a parameter type", line)))
            },
            _ => {
                Ok(())
            },
        }
    }

    /// Checks that a type can be that of an item of a tuple.
    pub(crate) fn validate_item_type(
        &self,
        taipe: &Type,
        node: &ast::Type,
    ) -> (r: Result<(), Stop>)
        requires
            self@.wf(),
        ensures
            outcome(r) == self@.validate_item_type(taipe@, node@),
    {
        broadcast use group_analyzer;

        proof {
            reveal(AnalyzerView::validate_item_type);
        }
        match taipe {
            Type::Module | Type::Typedef | Type::Void => {
                let line = match line_of(node) {
                    Ok(v) => v,
                    Err(e) => {
                        return Err(e);
                    },
                };
                Err(
                    Stop::Errors(
                        self.make_err(
                            &join2(&join2("'", &taipe.to_text()), "' cannot be a tuple item"),
                            line,
                        ),
                    ),
                )
            },
            _ => {
                Ok(())
            },
        }
    }

    /// The length of an array that an evaluated expression gives.
    pub(crate) fn array_length(
        &self,
        length: Context,
        line: LineInfo,
    ) -> (r: Result<usize, Stop>)
        requires
            self@.wf(),
        ensures
            outcome(r) == self@.array_length(length@, line@),
    {
        broadcast use group_analyzer;

        proof {
            reveal(AnalyzerView::array_length);
            reveal(Context::model);
            reveal(Value::model);
        }
        if !length.taipe.is_unsigned_integer() {
            return Err(
                Stop::Errors(
                    CompileError::pair(
                        self.make_err(
                            "argument of index operator should be an unsigned integer type",
                            line,
                        ),
                        self.make_note(
                            &join2(&join2("but got '", &length.taipe.to_text()), "'"),
                            line,
                        ),
                    ),
                ),
            );
        }
        match &length.value {
            Value::Imm(imm) => {
                let count = match self.transform_imm_to_usize(imm, line) {
                    Ok(v) => v,
                    Err(e) => {
                        return Err(e);
                    },
                };
                if !count.is_integer() {
                    return Err(Stop::Unsupported("probably some analyzer bug".to_owned()));
                }
                let Some(count_value) = count.to_usize() else {
                    return Err(
                        Stop::Errors(
                            self.make_err(
                                &join2(
                                    &join2("'usize' cannot hold this value: '", &count.to_text()),
                                    "'",
                                ),
                                line,
                            ),
                        ),
                    );
                };
                Ok(count_value)
            },
            _ => {
                Err(Stop::Errors(self.make_err("value cannot be evaluated at compile time", line)))
            },
        }
    }

    /// The type that a type as it is written stands for.
    pub(crate) fn visit_type(
        &mut self,
        node: &'a ast::Type,
        fuel: u64,
    ) -> (r: Result<Type, Stop>)
        requires
            old(self)@.wf(),
        ensures
            (final(self)@, outcome(r)) == old(self)@.visit_type(node@, fuel as int),
            final(self)@.follows(old(self)@),
        decreases fuel, 5nat,
    {
        broadcast use group_analyzer;

        proof {
            lemma_begin(self@);
            reveal(AnalyzerView::visit_type);
            reveal(AnalyzerView::get_name);
            reveal(AnalyzerView::visit_expr);
            reveal(AnalyzerView::visit_fun_type);
            reveal(AnalyzerView::visit_path);
            reveal(AnalyzerView::visit_tuple_type);
            reveal(ast::Type::model);
        }
        if fuel == 0 {
            return Err(Stop::Unsupported("nested too deeply".to_owned()));
        }
        match node {
            ast::Type::Path { items } => {
                proof {
                    assert(token_models(items@).len() == items@.len());
                }
                if items.len() == 0 {
                    return Err(Stop::Unsupported("index out of bounds".to_owned()));
                }
                proof {
                    assert(token_models(items@)[0] == items@[0]@);
                }
                let ctx = match self.get_name(&items[0], fuel - 1) {
                    Ok(v) => v,
                    Err(e) => {
                        return Err(e);
                    },
                };
                let line = match line_of(node) {
                    Ok(v) => v,
                    Err(e) => {
                        return Err(e);
                    },
                };
                self.visit_path(items, line, ctx, fuel - 1)
            },
            ast::Type::Function { line_info: _, params, ret: result } => {
                self.visit_fun_type(params, result, Vec::new(), fuel - 1)
            },
            ast::Type::Const { token, taipe: inner } => {
                let taipe = match self.visit_type(inner, fuel - 1) {
                    Ok(v) => v,
                    Err(e) => {
                        return Err(e);
                    },
                };
                match &taipe {
                    Type::Const(_) => {
                        Err(Stop::Unsupported("already handled in the parser".to_owned()))
                    },
                    _ => {
                        if taipe.is_const() {
                            let warning = self.make_warning(
                                &join2(
                                    &join2("'const' is redundant here, '", &taipe.to_text()),
                                    "' is always a constant",
                                ),
                                token.line_info,
                            );
                            let help = self.make_help("remove const qualifier");
                            self.warn(warning);
                            self.warn(help);
                            Ok(taipe)
                        } else {
                            Ok(Type::Const(Box::new(taipe)))
                        }
                    },
                }
            },
            ast::Type::Pointer { token: _, taipe: inner } => {
                let taipe = match self.visit_type(inner, fuel - 1) {
                    Ok(v) => v,
                    Err(e) => {
                        return Err(e);
                    },
                };
                match &taipe {
                    Type::Module => {
                        let line = match line_of(inner) {
                            Ok(v) => v,
                            Err(e) => {
                                return Err(e);
                            },
                        };
                        Err(Stop::Errors(self.make_err("pointer to 'module' is invalid", line)))
                    },
                    Type::Typedef => {
                        let line = match line_of(inner) {
                            Ok(v) => v,
                            Err(e) => {
                                return Err(e);
                            },
                        };
                        Err(Stop::Errors(self.make_err("pointer to 'typedef' is invalid", line)))
                    },
                    _ => {
                        Ok(Type::Pointer(Box::new(taipe)))
                    },
                }
            },
            ast::Type::Array { line_info: _, taipe: inner, expr } => {
                let taipe = match self.visit_type(inner, fuel - 1) {
                    Ok(v) => v,
                    Err(e) => {
                        return Err(e);
                    },
                };
                match expr {
                    None => {
                        let line = match line_of(node) {
                            Ok(v) => v,
                            Err(e) => {
                                return Err(e);
                            },
                        };
                        Err(Stop::Errors(self.make_err("array length must be specified", line)))
                    },
                    Some(length) => {
                        let ctx = match self.visit_expr(length, fuel - 1) {
                            Ok(v) => v,
                            Err(e) => {
                                return Err(e);
                            },
                        };
                        let ctx = match self.compeval_trivial(&ctx) {
                            Ok(v) => v,
                            Err(e) => {
                                return Err(e);
                            },
                        };
                        let line = match line_of(length) {
                            Ok(v) => v,
                            Err(e) => {
                                return Err(e);
                            },
                        };
                        let count: usize = match self.array_length(ctx, line) {
                            Ok(v) => v,
                            Err(e) => {
                                return Err(e);
                            },
                        };
                        Ok(Type::Array { count, taipe: Box::new(taipe) })
                    },
                }
            },
            ast::Type::Fat { line_info: _, taipe: inner } => {
                let taipe = match self.visit_type(inner, fuel - 1) {
                    Ok(v) => v,
                    Err(e) => {
                        return Err(e);
                    },
                };
                match &taipe {
                    Type::Module | Type::Typedef => {
                        let line = match line_of(inner) {
                            Ok(v) => v,
                            Err(e) => {
                                return Err(e);
                            },
                        };
                        Err(
                            Stop::Errors(
                                self.make_err(
                                    &join2(
                                        &join2("fat pointer to '", &taipe.to_text()),
                                        "' is invalid",
                                    ),
                                    line,
                                ),
                            ),
                        )
                    },
                    _ => {
                        Ok(Type::Fat(Box::new(taipe)))
                    },
                }
            },
            ast::Type::Paren { line_info: _, taipe: inner } => {
                self.visit_type(inner, fuel - 1)
            },
            ast::Type::Tuple { line_info: _, types } => {
                self.visit_tuple_type(types, Vec::new(), fuel - 1)
            },
            ast::Type::Literal(token) => {
                match token.kind {
                    TokenKind::Void => {
                        Ok(Type::Void)
                    },
                    TokenKind::Noreturn => {
                        Ok(Type::Noreturn)
                    },
                    TokenKind::Typedef => {
                        Ok(Type::Typedef)
                    },
                    _ => {
                        Err(Stop::Unsupported("probably some parser bug".to_owned()))
                    },
                }
            },
        }
    }

    /// The type that a path leads to, where the names up to a point lead to a value.
    #[verifier::loop_isolation(false)]
    pub(crate) fn visit_path(
        &mut self,
        items: &Vec<Token>,
        line: LineInfo,
        ctx: Context,
        fuel: u64,
    ) -> (r: Result<Type, Stop>)
        requires
            old(self)@.wf(),
        ensures
            (final(self)@, outcome(r)) == old(self)@.visit_path(
                token_models(items@),
                line@,
                ctx@,
                fuel as int,
                0,
            ),
            final(self)@.follows(old(self)@),
        decreases fuel, 6nat,
    {
        broadcast use group_analyzer;

        proof {
            lemma_begin(self@);
            reveal(AnalyzerView::visit_path);
            reveal(AnalyzerView::get_member);
            reveal(Context::model);
            reveal(Value::model);
        }
        let ghost goal = self@.visit_path(token_models(items@), line@, ctx@, fuel as int, 0);
        let ghost begin = self@;
        let mut ctx: Context = ctx;
        let mut i: usize = 0;
        while i < items.len()
            invariant
                i <= items@.len(),
                goal == self@.visit_path(token_models(items@), line@, ctx@, fuel as int, i as int),
                self@.follows(begin),
                self@.comes_from(begin),
            decreases items@.len() - i,
        {
            proof {
                reveal(AnalyzerView::visit_path);
                reveal(AnalyzerView::get_member);
                reveal(Context::model);
                reveal(Value::model);
            }
            proof {
                assert(token_models(items@).len() == items@.len());
                            assert(token_models(items@)[i as int] == items@[i as int]@);
                            assert(token_models(items@)[0] == items@[0]@);
                            assert(i > 0 ==> token_models(items@)[i - 1] == items@[i - 1]@);
            }
            if i == 0 {
                i = i + 1;
                continue;
            }
            match ctx.taipe.remove_const() {
                Type::Module => {
                    match &ctx.value {
                        Value::Imm(Imm::Module(module)) => {
                            let member = match self.get_member(module, &items[i], fuel) {
                                Ok(v) => v,
                                Err(e) => {
                                    return Err(e);
                                },
                            };
                            ctx = member;
                            i = i + 1;
                        },
                        _ => {
                            return Err(Stop::Unsupported("probably some analyzer bug".to_owned()));
                        },
                    }
                },
                _ => {
                    return Err(
                        Stop::Errors(
                            self.make_err(
                                &join2(
                                    &join2("cannot use '.' operator on '", &ctx.taipe.to_text()),
                                    "'",
                                ),
                                LineInfo::from_range(&items[0].line_info, &items[i - 1].line_info),
                            ),
                        ),
                    );
                },
            }
        }
        if !ctx.taipe.is_typedef() {
            return Err(
                Stop::Errors(
                    self.make_err(
                        &join2(&join2("expression is not a type: '", &ctx.to_text()), "'"),
                        line,
                    ),
                ),
            );
        }
        self.type_value(&ctx.value)
    }

    /// The type of a function with the given parameters and the remaining ones.
    #[verifier::loop_isolation(false)]
    pub(crate) fn visit_fun_type(
        &mut self,
        params: &'a Vec<ast::Type>,
        result: &'a ast::Type,
        types: Vec<Param>,
        fuel: u64,
    ) -> (r: Result<Type, Stop>)
        requires
            old(self)@.wf(),
        ensures
            (final(self)@, outcome(r)) == old(self)@.visit_fun_type(
                ast::type_models(params@),
                result@,
                param_models(types@),
                fuel as int,
                0,
            ),
            final(self)@.follows(old(self)@),
        decreases fuel, 6nat,
    {
        broadcast use group_analyzer;

        proof {
            lemma_begin(self@);
            reveal(AnalyzerView::visit_fun_type);
            reveal(AnalyzerView::visit_type);
        }
        let ghost goal = self@.visit_fun_type(
            ast::type_models(params@),
            result@,
            param_models(types@),
            fuel as int,
            0,
        );
        let ghost begin = self@;
        let mut types: Vec<Param> = types;
        let mut i: usize = 0;
        while i < params.len()
            invariant
                i <= params@.len(),
                goal == self@.visit_fun_type(
                    ast::type_models(params@),
                    result@,
                    param_models(types@),
                    fuel as int,
                    i as int,
                ),
                self@.follows(begin),
                self@.comes_from(begin),
            decreases params@.len() - i,
        {
            proof {
                reveal(AnalyzerView::visit_fun_type);
                reveal(AnalyzerView::visit_type);
            }
            let taipe = match self.visit_type(&params[i], fuel) {
                Ok(v) => v,
                Err(e) => {
                    return Err(e);
                },
            };
            match self.validate_param_type(&taipe, &params[i]) {
                Ok(_) => {},
                Err(e) => {
                    return Err(e);
                },
            }
            types.push(Param { taipe });
            i = i + 1;
        }
        let taipe = match self.visit_type(result, fuel) {
            Ok(v) => v,
            Err(e) => {
                return Err(e);
            },
        };
        match self.validate_fun_ret_type(&taipe, result) {
            Ok(_) => {},
            Err(e) => {
                return Err(e);
            },
        }
        Ok(Type::Function { ret: Box::new(taipe), params: types })
    }

    /// The type of a tuple of the given types and the remaining ones.
    #[verifier::loop_isolation(false)]
    pub(crate) fn visit_tuple_type(
        &mut self,
        nodes: &'a Vec<ast::Type>,
        types: Vec<Type>,
        fuel: u64,
    ) -> (r: Result<Type, Stop>)
        requires
            old(self)@.wf(),
        ensures
            (final(self)@, outcome(r)) == old(self)@.visit_tuple_type(
                ast::type_models(nodes@),
                type_models(types@),
                fuel as int,
                0,
            ),
            final(self)@.follows(old(self)@),
        decreases fuel, 6nat,
    {
        broadcast use group_analyzer;

        proof {
            lemma_begin(self@);
            reveal(AnalyzerView::visit_tuple_type);
            reveal(AnalyzerView::visit_type);
        }
        let ghost goal = self@.visit_tuple_type(
            ast::type_models(nodes@),
            type_models(types@),
            fuel as int,
            0,
        );
        let ghost begin = self@;
        let mut types: Vec<Type> = types;
        let mut i: usize = 0;
        while i < nodes.len()
            invariant
                i <= nodes@.len(),
                goal == self@.visit_tuple_type(
                    ast::type_models(nodes@),
                    type_models(types@),
                    fuel as int,
                    i as int,
                ),
                self@.follows(begin),
                self@.comes_from(begin),
            decreases nodes@.len() - i,
        {
            proof {
                reveal(AnalyzerView::visit_tuple_type);
                reveal(AnalyzerView::visit_type);
            }
            let taipe = match self.visit_type(&nodes[i], fuel) {
                Ok(v) => v,
                Err(e) => {
                    return Err(e);
                },
            };
            match self.validate_item_type(&taipe, &nodes[i]) {
                Ok(_) => {},
                Err(e) => {
                    return Err(e);
                },
            }
            types.push(taipe);
            i = i + 1;
        }
        Ok(Type::Tuple(types))
    }
}

} // verus!
