use vstd::prelude::*;

use crate::ast::{
    decl_models, param_models, Decl, DeclView, Expr, Field, Object, Param, Stmt, Type,
};
use crate::common::{
    CompileError, CompileResult, copy_errors, ErrorView, HasLineInfo, LineInfo, result_model,
};
use crate::parser::{goes_on, Parser};
use crate::parser::model::{is_recoverable, ParseState};
use crate::token::{Token, TokenKind, token_models, TokenView};

verus! {

broadcast use crate::ast::group_models;

impl Parser {
    // field ::= (identifier | '_') ':' type ((':'|'=') expr)?
    //         | ('struct' | 'union') '{' field_list '}'
    pub(super) fn parse_field(&mut self) -> (r: CompileResult<Field>)
        requires
            old(self).wf(),
        ensures
            final(self).wf(),
            goes_on(old(self)@, final(self)@),
            final(self)@ == old(self)@.field().state,
            result_model(r) == old(self)@.field().result,
            r is Ok ==> old(self)@.index < final(self)@.index,
        decreases old(self)@.left(), 6nat, 0nat,
    {
        proof {
            reveal(ParseState::field);
            reveal(ParseState::taipe);
            reveal(ParseState::logical);
            reveal(ParseState::compound_rest);
        }
        if self.is_at(TokenKind::Ident) || self.is_at(TokenKind::Underscore) {
            let name: Token = self.get_token();
            match self.expect(TokenKind::Colon) {
                Ok(_) => {},
                Err(e) => {
                    return Err(e);
                },
            }
            let taipe: Type = match self.parse_type() {
                Ok(v) => v,
                Err(e) => {
                    return Err(e);
                },
            };
            assert(old(self)@.past(self@) == self@);
            if self.is_at(TokenKind::Equal) || self.is_at(TokenKind::Colon) {
                let eq_tok: Token = self.get_token();
                match self.parse_expr() {
                    Ok(expr) => Ok(
                        Field::make_decl(name, taipe, Some(eq_tok), Some(expr)),
                    ),
                    Err(e) => Err(e),
                }
            } else {
                Ok(Field::make_decl(name, taipe, None, None))
            }
        } else if self.is_at(TokenKind::Struct) || self.is_at(TokenKind::Union) {
            let token: Token = self.get_token();
            self.parse_compound_rest(token)
        } else {
            Err(
                self.expect_err(
                    vec![
                        TokenKind::Ident,
                        TokenKind::Underscore,
                        TokenKind::Struct,
                        TokenKind::Union,
                    ],
                ),
            )
        }
    }

    // '{' field_list '}'
    pub(super) fn parse_compound_rest(&mut self, token: Token) -> (r: CompileResult<Field>)
        requires
            old(self).wf(),
        ensures
            final(self).wf(),
            goes_on(old(self)@, final(self)@),
            final(self)@ == old(self)@.compound_rest(token@).state,
            result_model(r) == old(self)@.compound_rest(token@).result,
            r is Ok ==> old(self)@.index < final(self)@.index,
            r is Ok ==> r->Ok_0@.has_span(),
        decreases old(self)@.left(), 0nat, 0nat,
    {
        proof {
            reveal(ParseState::compound_rest);
            reveal(ParseState::field_list);
        }
        match self.expect(TokenKind::LBrace) {
            Ok(_) => {},
            Err(e) => {
                return Err(e);
            },
        }
        let fields: Vec<Field> = self.parse_field_list();
        let end: Token = self.expect_closing(TokenKind::RBrace);
        Ok(Field::make_compound(LineInfo::from_range(&token, &end), token, fields))
    }

    // param ::= identifier ':' type ((':'|'=') expr)?
    pub(super) fn parse_param(&mut self) -> (r: CompileResult<Param>)
        requires
            old(self).wf(),
        ensures
            final(self).wf(),
            goes_on(old(self)@, final(self)@),
            final(self)@ == old(self)@.param().state,
            result_model(r) == old(self)@.param().result,
            r is Ok ==> old(self)@.index < final(self)@.index,
        decreases old(self)@.left(), 6nat, 0nat,
    {
        proof {
            reveal(ParseState::param);
            reveal(ParseState::taipe);
            reveal(ParseState::logical);
        }
        let name: Token = match self.expect(TokenKind::Ident) {
            Ok(v) => v,
            Err(e) => {
                return Err(e);
            },
        };
        match self.expect(TokenKind::Colon) {
            Ok(_) => {},
            Err(e) => {
                return Err(e);
            },
        }
        let taipe: Type = match self.parse_type() {
            Ok(v) => v,
            Err(e) => {
                return Err(e);
            },
        };
        assert(old(self)@.past(self@) == self@);
        if self.is_at(TokenKind::Colon) || self.is_at(TokenKind::Equal) {
            let eq_token: Token = self.get_token();
            match self.parse_expr() {
                Ok(expr) => Ok(Param::make(name, taipe, Some(eq_token), Some(expr))),
                Err(e) => Err(e),
            }
        } else {
            Ok(Param::make(name, taipe, None, None))
        }
    }

    // fun ::= 'fun' '(' param_list ')' ('->' type)? (';' | block)
    pub(super) fn parse_fun(&mut self) -> (r: CompileResult<Object>)
        requires
            old(self).wf(),
        ensures
            final(self).wf(),
            goes_on(old(self)@, final(self)@),
            final(self)@ == old(self)@.fun().state,
            result_model(r) == old(self)@.fun().result,
            r is Ok ==> old(self)@.index < final(self)@.index,
            r is Ok ==> r->Ok_0@.has_span(),
        decreases old(self)@.left(), 28nat, 0nat,
    {
        proof {
            reveal(ParseState::fun);
            reveal(ParseState::param_list);
            reveal(ParseState::taipe);
            reveal(ParseState::fun_body);
        }
        let start: Token = match self.expect(TokenKind::Fun) {
            Ok(v) => v,
            Err(e) => {
                return Err(e);
            },
        };
        match self.expect(TokenKind::LParen) {
            Ok(_) => {},
            Err(e) => {
                return Err(e);
            },
        }
        let params: Vec<Param> = self.parse_param_list();
        assert(old(self)@.past(self@) == self@);
        self.expect_closing(TokenKind::RParen);
        assert(old(self)@.past(self@) == self@);
        if self.is_at(TokenKind::Arrow) {
            self.get_token();
            let ret: Type = match self.parse_type() {
                Ok(v) => v,
                Err(e) => {
                    return Err(e);
                },
            };
            assert(old(self)@.past(self@) == self@);
            self.parse_fun_body(start, params, Some(ret))
        } else {
            self.parse_fun_body(start, params, None)
        }
    }

    // ';' | block
    pub(super) fn parse_fun_body(
        &mut self,
        start: Token,
        params: Vec<Param>,
        ret: Option<Type>,
    ) -> (r: CompileResult<Object>)
        requires
            old(self).wf(),
        ensures
            final(self).wf(),
            goes_on(old(self)@, final(self)@),
            ({
                let taipe = match ret {
                    Some(t) => Some(t@),
                    None => None,
                };
                let spec = old(self)@.fun_body(start@, param_models(params@), taipe);
                &&& final(self)@ == spec.state
                &&& result_model(r) == spec.result
            }),
            r is Ok ==> old(self)@.index < final(self)@.index,
            r is Ok ==> r->Ok_0@.has_span(),
        decreases old(self)@.left(), 32nat, 0nat,
    {
        proof {
            reveal(ParseState::fun_body);
            reveal(ParseState::block);
        }
        let body: Option<Stmt> = if self.is_at(TokenKind::LBrace) {
            match self.parse_block() {
                Ok(v) => Some(v),
                Err(e) => {
                    return Err(e);
                },
            }
        } else if self.is_at(TokenKind::Semicolon) {
            self.get_token();
            None
        } else if ret.is_some() {
            return Err(self.expect_err(vec![TokenKind::LBrace, TokenKind::Semicolon]));
        } else {
            return Err(
                self.expect_err(vec![TokenKind::Arrow, TokenKind::LBrace, TokenKind::Semicolon]),
            );
        };
        let end: LineInfo = self.cur_line_info();
        Ok(Object::make_fun(LineInfo::from_range(&start, &end), params, ret, body))
    }

    // module ::= 'module' (string ';' | '{' decls '}')
    pub(super) fn parse_module(&mut self) -> (r: CompileResult<Object>)
        requires
            old(self).wf(),
        ensures
            final(self).wf(),
            goes_on(old(self)@, final(self)@),
            final(self)@ == old(self)@.module().state,
            result_model(r) == old(self)@.module().result,
            r is Ok ==> old(self)@.index < final(self)@.index,
            r is Ok ==> r->Ok_0@.has_span(),
        decreases old(self)@.left(), 28nat, 0nat,
    {
        proof {
            reveal(ParseState::module);
            reveal(ParseState::decls);
        }
        let start: Token = match self.expect(TokenKind::Module) {
            Ok(v) => v,
            Err(e) => {
                return Err(e);
            },
        };
        if self.is_at(TokenKind::StringLit) {
            let value: Token = self.get_token();
            self.expect_term();
            Ok(Object::make_extern_module(LineInfo::from_range(&start, &value), value))
        } else if self.is_at(TokenKind::LBrace) {
            self.get_token();
            let decls: Vec<Decl> = match self.parse_decls() {
                Ok(v) => v,
                Err(e) => {
                    return Err(e);
                },
            };
            let end: Token = self.expect_closing(TokenKind::RBrace);
            Ok(Object::make_module(LineInfo::from_range(&start, &end), decls))
        } else {
            Err(self.expect_err(vec![TokenKind::StringLit, TokenKind::LBrace]))
        }
    }

    // struct ::= 'struct' '{' field_list '}'
    pub(super) fn parse_struct(&mut self) -> (r: CompileResult<Object>)
        requires
            old(self).wf(),
        ensures
            final(self).wf(),
            goes_on(old(self)@, final(self)@),
            final(self)@ == old(self)@.compound(TokenKind::Struct).state,
            result_model(r) == old(self)@.compound(TokenKind::Struct).result,
            r is Ok ==> old(self)@.index < final(self)@.index,
            r is Ok ==> r->Ok_0@.has_span(),
        decreases old(self)@.left(), 28nat, 1nat,
    {
        proof {
            reveal(ParseState::compound);
            reveal(ParseState::compound_rest);
        }
        self.parse_compound(TokenKind::Struct)
    }

    // union ::= 'union' '{' field_list '}'
    pub(super) fn parse_union(&mut self) -> (r: CompileResult<Object>)
        requires
            old(self).wf(),
        ensures
            final(self).wf(),
            goes_on(old(self)@, final(self)@),
            final(self)@ == old(self)@.compound(TokenKind::Union).state,
            result_model(r) == old(self)@.compound(TokenKind::Union).result,
            r is Ok ==> old(self)@.index < final(self)@.index,
            r is Ok ==> r->Ok_0@.has_span(),
        decreases old(self)@.left(), 28nat, 1nat,
    {
        proof {
            reveal(ParseState::compound);
            reveal(ParseState::compound_rest);
        }
        self.parse_compound(TokenKind::Union)
    }

    pub(super) fn parse_compound(&mut self, kind: TokenKind) -> (r: CompileResult<Object>)
        requires
            old(self).wf(),
            !is_recoverable(kind),
        ensures
            final(self).wf(),
            goes_on(old(self)@, final(self)@),
            final(self)@ == old(self)@.compound(kind).state,
            result_model(r) == old(self)@.compound(kind).result,
            r is Ok ==> old(self)@.index < final(self)@.index,
            r is Ok ==> r->Ok_0@.has_span(),
        decreases old(self)@.left(), 28nat, 0nat,
    {
        proof {
            reveal(ParseState::compound);
            reveal(ParseState::compound_rest);
        }
        let start: Token = match self.expect(kind) {
            Ok(v) => v,
            Err(e) => {
                return Err(e);
            },
        };
        let field: Field = match self.parse_compound_rest(start) {
            Ok(v) => v,
            Err(e) => {
                return Err(e);
            },
        };
        let line_info: LineInfo = field.get_line_info();
        Ok(Object::make_compound(line_info, field))
    }

    // object ::= module | struct | union | fun
    //          | 'typedef' type ';'
    //          | expr ';'
    pub(super) fn parse_object(&mut self) -> (r: CompileResult<Object>)
        requires
            old(self).wf(),
        ensures
            final(self).wf(),
            goes_on(old(self)@, final(self)@),
            final(self)@ == old(self)@.object().state,
            result_model(r) == old(self)@.object().result,
            r is Ok ==> old(self)@.index < final(self)@.index,
            r is Ok ==> r->Ok_0@.has_span(),
        decreases old(self)@.left(), 30nat, 0nat,
    {
        proof {
            reveal(ParseState::object);
            reveal(ParseState::module);
            reveal(ParseState::compound);
            reveal(ParseState::fun);
            reveal(ParseState::taipe);
            reveal(ParseState::logical);
        }
        if self.is_at(TokenKind::Module) {
            self.parse_module()
        } else if self.is_at(TokenKind::Struct) {
            self.parse_struct()
        } else if self.is_at(TokenKind::Union) {
            self.parse_union()
        } else if self.is_at(TokenKind::Fun) {
            self.parse_fun()
        } else if self.is_at(TokenKind::Typedef) {
            self.get_token();
            let taipe: Type = match self.parse_type() {
                Ok(v) => v,
                Err(e) => {
                    return Err(e);
                },
            };
            self.expect_term();
            Ok(Object::make_typedef(taipe))
        } else if self.is_expr_start() {
            let expr: Expr = match self.parse_expr() {
                Ok(v) => v,
                Err(e) => {
                    return Err(e);
                },
            };
            self.expect_term();
            Ok(Object::make_expr(expr))
        } else {
            Err(
                self.expect_err_more(
                    "<expression>",
                    vec![
                        TokenKind::Module,
                        TokenKind::Struct,
                        TokenKind::Union,
                        TokenKind::Fun,
                        TokenKind::Typedef,
                    ],
                ),
            )
        }
    }

    // decl ::= (identifier | '_') ':' type (';' | ((':'|'=') object))
    //        | (identifier | '_') ':' ((':'|'=') object)
    //        | 'using' identifier ('.' identifier)* ('.' '*')? ';'
    pub(super) fn parse_decl(&mut self) -> (r: CompileResult<Decl>)
        requires
            old(self).wf(),
        ensures
            final(self).wf(),
            goes_on(old(self)@, final(self)@),
            final(self)@ == old(self)@.decl().state,
            result_model(r) == old(self)@.decl().result,
            r is Ok ==> old(self)@.index < final(self)@.index,
            r is Ok ==> r->Ok_0@.has_span(),
        decreases old(self)@.left(), 42nat, 0nat,
    {
        proof {
            reveal(ParseState::decl);
            reveal(ParseState::taipe);
            reveal(ParseState::decl_value);
            reveal(ParseState::using_rest);
        }
        if self.is_at(TokenKind::Ident) || self.is_at(TokenKind::Underscore) {
            let name: Token = self.get_token();
            match self.expect(TokenKind::Colon) {
                Ok(_) => {},
                Err(e) => {
                    return Err(e);
                },
            }
            let ghost colon = self@;
            let save: usize = self.index;
            let errors_save: Vec<CompileError> = copy_errors(&self.errors);
            match self.parse_type() {
                Ok(taipe) => {
                    assert(old(self)@.past(self@) == self@);
                    if self.is_at(TokenKind::Equal) || self.is_at(TokenKind::Colon) {
                        self.parse_decl_value(name, Some(taipe))
                    } else {
                        self.expect_term();
                        Ok(Decl::make_decl(name, Some(taipe), None, None))
                    }
                },
                Err(_) => {
                    self.index = save;
                    self.errors = errors_save;
                    assert(self@ == colon);
                    if self.is_at(TokenKind::Equal) || self.is_at(TokenKind::Colon) {
                        self.parse_decl_value(name, None)
                    } else {
                        Err(
                            self.expect_err_more(
                                "<type>",
                                vec![TokenKind::Equal, TokenKind::Colon],
                            ),
                        )
                    }
                },
            }
        } else if self.is_at(TokenKind::Using) {
            self.parse_using()
        } else {
            Err(
                self.expect_err(vec![TokenKind::Ident, TokenKind::Underscore, TokenKind::Using]),
            )
        }
    }

    // (':'|'=') object
    pub(super) fn parse_decl_value(
        &mut self,
        name: Token,
        taipe: Option<Type>,
    ) -> (r: CompileResult<Decl>)
        requires
            old(self).wf(),
            old(self)@.peek() is Some,
        ensures
            final(self).wf(),
            goes_on(old(self)@, final(self)@),
            ({
                let taipe_model = match taipe {
                    Some(t) => Some(t@),
                    None => None,
                };
                let spec = old(self)@.decl_value(name@, taipe_model);
                &&& final(self)@ == spec.state
                &&& result_model(r) == spec.result
            }),
            r is Ok ==> old(self)@.index < final(self)@.index,
            r is Ok ==> r->Ok_0@.has_span(),
        decreases old(self)@.left(), 32nat, 0nat,
    {
        proof {
            reveal(ParseState::decl_value);
            reveal(ParseState::object);
        }
        let eq_tok: Token = self.get_token();
        match self.parse_object() {
            Ok(object) => Ok(
                Decl::make_decl(name, taipe, Some(eq_tok), Some(object)),
            ),
            Err(e) => Err(e),
        }
    }

    // 'using' identifier ('.' identifier)* ('.' '*')? ';'
    pub(super) fn parse_using(&mut self) -> (r: CompileResult<Decl>)
        requires
            old(self).wf(),
            old(self)@.at(TokenKind::Using),
        ensures
            final(self).wf(),
            goes_on(old(self)@, final(self)@),
            final(self)@ == old(self)@.decl().state,
            result_model(r) == old(self)@.decl().result,
            r is Ok ==> old(self)@.index < final(self)@.index,
            r is Ok ==> r->Ok_0@.has_span(),
    {
        proof {
            reveal(ParseState::decl);
            reveal(ParseState::using_rest);
            reveal(ParseState::taipe);
            reveal(ParseState::decl_value);
        }
        let start: Token = self.get_token();
        let mut items: Vec<Token> = Vec::new();
        let name: Token = match self.expect(TokenKind::Ident) {
            Ok(v) => v,
            Err(e) => {
                return Err(e);
            },
        };
        items.push(name);
        assert(token_models(items@) == seq![name@]);
        let ghost first = self@;
        let ghost goal = self@.using_rest(seq![name@]);
        loop
            invariant_except_break
                self.wf(),
                goes_on(first, self@),
                goes_on(old(self)@, first),
                old(self)@.index < first.index,
                old(self)@.at(TokenKind::Using),
                first == old(self)@.taken().expected(TokenKind::Ident).state,
                old(self)@.taken().expected(TokenKind::Ident).result == Ok::<TokenView, ErrorView>(
                    name@,
                ),
                goal == first.using_rest(seq![name@]),
                self@.using_rest(token_models(items@)) == goal,
            ensures
                self.wf(),
                goes_on(first, self@),
                goal == self@.ok(token_models(items@)),
            decreases self@.left(),
        {
            proof {
                reveal(ParseState::decl);
                reveal(ParseState::using_rest);
                reveal(ParseState::taipe);
                reveal(ParseState::decl_value);
            }
            let ghost read = items@;
            if !self.is_at(TokenKind::Dot) {
                break;
            }
            self.get_token();
            if self.is_at(TokenKind::Ident) {
                let tok: Token = self.get_token();
                items.push(tok);
                assert(token_models(items@) == token_models(read).push(tok@));
            } else if self.is_at(TokenKind::Star) {
                let tok: Token = self.get_token();
                items.push(tok);
                assert(token_models(items@) == token_models(read).push(tok@));
                break;
            } else {
                return Err(self.expect_err(vec![TokenKind::Ident, TokenKind::Star]));
            }
        }
        let end: Token = self.expect_closing(TokenKind::Semicolon);
        Ok(Decl::make_using(LineInfo::from_range(&start, &end), items))
    }

    // decls ::= decl*
    pub(super) fn parse_decls(&mut self) -> (r: CompileResult<Vec<Decl>>)
        requires
            old(self).wf(),
        ensures
            final(self).wf(),
            goes_on(old(self)@, final(self)@),
            final(self)@ == old(self)@.decls(seq![]).state,
            match r {
                Ok(decls) => old(self)@.decls(seq![]).result == Ok::<Seq<DeclView>, ErrorView>(
                    decl_models(decls@),
                ),
                Err(e) => old(self)@.decls(seq![]).result == Err::<Seq<DeclView>, ErrorView>(e@),
            },
            r is Ok && old(self)@.at_decl() ==> r->Ok_0@.len() > 0,
            r matches Ok(decls) ==> forall|i: int|
                0 <= i < decls@.len() ==> (#[trigger] decls@[i])@.has_span(),
        decreases old(self)@.left(), 52nat, 0nat,
    {
        proof {
            reveal(ParseState::decls);
            reveal(ParseState::decl);
        }
        let mut decls: Vec<Decl> = Vec::new();
        let ghost goal = self@.decls(seq![]);
        assert(decl_models(decls@) == Seq::<DeclView>::empty());
        while self.is_at(TokenKind::Ident) || self.is_at(TokenKind::Underscore) || self.is_at(
            TokenKind::Using,
        )
            invariant
                self.wf(),
                goes_on(old(self)@, self@),
                goal == old(self)@.decls(seq![]),
                self@.decls(decl_models(decls@)) == goal,
                decls@.len() == 0 ==> self@ == old(self)@,
                forall|i: int| 0 <= i < decls@.len() ==> (#[trigger] decls@[i])@.has_span(),
            decreases self@.left(),
        {
            proof {
                reveal(ParseState::decls);
                reveal(ParseState::decl);
            }
            let ghost before = self@;
            let ghost read = decls@;
            let decl: Decl = match self.parse_decl() {
                Ok(v) => v,
                Err(e) => {
                    return Err(e);
                },
            };
            assert(before.past(self@) == self@);
            decls.push(decl);
            assert(decl_models(decls@) == decl_models(read).push(decl@));
        }
        Ok(decls)
    }
}

} // verus!
