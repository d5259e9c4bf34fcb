use vstd::prelude::*;

use crate::ast::{Expr, Type};
use crate::common::{CompileResult, LineInfo, result_model};
use crate::parser::{goes_on, Parser};
use crate::parser::model::ParseState;
use crate::token::{Token, TokenKind, token_models};

verus! {

broadcast use crate::ast::group_models;

impl Parser {
    // type_tuple ::= '(' type_list ')'
    pub(super) fn parse_type_tuple(&mut self) -> (r: CompileResult<Type>)
        requires
            old(self).wf(),
        ensures
            final(self).wf(),
            goes_on(old(self)@, final(self)@),
            final(self)@ == old(self)@.type_tuple().state,
            result_model(r) == old(self)@.type_tuple().result,
            r is Ok ==> old(self)@.index < final(self)@.index,
            r is Ok ==> r->Ok_0@.has_span(),
        decreases old(self)@.left(), 0nat, 0nat,
    {
        proof {
            reveal(ParseState::type_tuple);
            reveal(ParseState::type_list);
        }
        let start: Token = match self.expect(TokenKind::LParen) {
            Ok(v) => v,
            Err(e) => {
                return Err(e);
            },
        };
        let types: Vec<Type> = self.parse_type_list();
        let end: Token = self.expect_closing(TokenKind::RParen);
        Ok(Type::make_tuple(LineInfo::from_range(&start, &end), types))
    }

    // type ::= identifier ('.' identifier)*
    //        | 'fun' '(' type_list ')' '->' type
    //        | 'const' type                 # duplicate const is handled in the parser
    //        | '*' type
    //        | '[' ('_' | expr) ']' type
    //        | '[' ']' type
    //        | '(' type ')'
    //        | type_tuple
    //        | 'void' | 'noreturn' | 'typedef'
    pub(super) fn parse_type(&mut self) -> (r: CompileResult<Type>)
        requires
            old(self).wf(),
        ensures
            final(self).wf(),
            goes_on(old(self)@, final(self)@),
            final(self)@ == old(self)@.taipe().state,
            result_model(r) == old(self)@.taipe().result,
            r is Ok ==> old(self)@.index < final(self)@.index,
            r is Ok ==> r->Ok_0@.has_span(),
        decreases old(self)@.left(), 2nat, 0nat,
    {
        proof {
            reveal(ParseState::taipe);
            reveal(ParseState::path_rest);
            reveal(ParseState::function_type);
            reveal(ParseState::bracket_type);
            reveal(ParseState::type_tuple);
        }
        if self.is_at(TokenKind::Ident) {
            self.parse_path()
        } else if self.is_at(TokenKind::Fun) {
            self.parse_function_type()
        } else if self.is_at(TokenKind::Const) {
            let token: Token = self.get_token();
            if self.is_at(TokenKind::Const) {
                let tok: LineInfo = self.tokens[self.index].line_info;
                return Err(self.make_error(tok, "duplicate 'const' is not allowed".to_owned()));
            }
            match self.parse_type() {
                Ok(taipe) => Ok(Type::make_const(token, taipe)),
                Err(e) => Err(e),
            }
        } else if self.is_at(TokenKind::Star) {
            let token: Token = self.get_token();
            match self.parse_type() {
                Ok(taipe) => Ok(Type::make_pointer(token, taipe)),
                Err(e) => Err(e),
            }
        } else if self.is_at(TokenKind::LBrack) {
            self.parse_bracket_type()
        } else if self.is_at(TokenKind::LParen) {
            if self.is_next(TokenKind::RParen) {
                return self.parse_type_tuple();
            }
            let save: usize = self.index;
            let start: Token = self.get_token();
            let taipe: Type = match self.parse_type() {
                Ok(v) => v,
                Err(e) => {
                    return Err(e);
                },
            };
            if self.is_at(TokenKind::Comma) {
                let ghost errors = self@.errors;
                self.index = save;
                assert(self@ == ParseState { errors, ..old(self)@ });
                return self.parse_type_tuple();
            }
            let end: Token = self.expect_closing(TokenKind::RParen);
            Ok(Type::make_paren(LineInfo::from_range(&start, &end), taipe))
        } else if self.is_at(TokenKind::Void) || self.is_at(TokenKind::Noreturn) || self.is_at(
            TokenKind::Typedef,
        ) {
            Ok(Type::make_literal(self.get_token()))
        } else {
            Err(
                self.expect_err(
                    vec![
                        TokenKind::Ident,
                        TokenKind::Fun,
                        TokenKind::Const,
                        TokenKind::Star,
                        TokenKind::LBrack,
                        TokenKind::LParen,
                        TokenKind::Void,
                        TokenKind::Noreturn,
                        TokenKind::Typedef,
                    ],
                ),
            )
        }
    }

    // identifier ('.' identifier)*
    pub(super) fn parse_path(&mut self) -> (r: CompileResult<Type>)
        requires
            old(self).wf(),
            old(self)@.at(TokenKind::Ident),
        ensures
            final(self).wf(),
            goes_on(old(self)@, final(self)@),
            final(self)@ == old(self)@.taipe().state,
            result_model(r) == old(self)@.taipe().result,
            r is Ok ==> old(self)@.index < final(self)@.index,
            r is Ok ==> r->Ok_0@.has_span(),
        decreases old(self)@.left(), 0nat, 0nat,
    {
        proof {
            reveal(ParseState::taipe);
            reveal(ParseState::path_rest);
            reveal(ParseState::function_type);
            reveal(ParseState::bracket_type);
            reveal(ParseState::type_tuple);
        }
        let mut items: Vec<Token> = Vec::new();
        items.push(self.get_token());
        assert(token_models(items@) == seq![old(self)@.peek()->0]);
        let ghost goal = self@.path_rest(seq![old(self)@.peek()->0]);
        while self.is_at(TokenKind::Dot)
            invariant
                self.wf(),
                goes_on(old(self)@, self@),
                old(self)@.at(TokenKind::Ident),
                old(self)@.index < self@.index,
                items@.len() > 0,
                goal == old(self)@.taken().path_rest(seq![old(self)@.peek()->0]),
                self@.path_rest(token_models(items@)) == goal,
            decreases self@.left(),
        {
            proof {
                reveal(ParseState::taipe);
                reveal(ParseState::path_rest);
                reveal(ParseState::function_type);
                reveal(ParseState::bracket_type);
                reveal(ParseState::type_tuple);
            }
            let ghost before = self@;
            let ghost read = items@;
            self.get_token();
            let name: Token = match self.expect(TokenKind::Ident) {
                Ok(v) => v,
                Err(e) => {
                    return Err(e);
                },
            };
            assert(before.past(self@) == self@);
            items.push(name);
            assert(token_models(items@) == token_models(read).push(name@));
        }
        assert(token_models(items@).len() == items@.len());
        Ok(Type::make_path(items))
    }

    // 'fun' '(' type_list ')' '->' type
    pub(super) fn parse_function_type(&mut self) -> (r: CompileResult<Type>)
        requires
            old(self).wf(),
        ensures
            final(self).wf(),
            goes_on(old(self)@, final(self)@),
            final(self)@ == old(self)@.function_type().state,
            result_model(r) == old(self)@.function_type().result,
            r is Ok ==> old(self)@.index < final(self)@.index,
            r is Ok ==> r->Ok_0@.has_span(),
        decreases old(self)@.left(), 0nat, 0nat,
    {
        proof {
            reveal(ParseState::function_type);
            reveal(ParseState::type_list);
            reveal(ParseState::taipe);
        }
        let start: Token = match self.expect(TokenKind::Fun) {
            Ok(v) => v,
            Err(e) => {
                return Err(e);
            },
        };
        match self.expect(TokenKind::LParen) {
            Ok(_) => {},
            Err(e) => {
                return Err(e);
            },
        }
        let params: Vec<Type> = self.parse_type_list();
        self.expect_closing(TokenKind::RParen);
        match self.expect(TokenKind::Arrow) {
            Ok(_) => {},
            Err(e) => {
                return Err(e);
            },
        }
        assert(old(self)@.past(self@) == self@);
        let ret: Type = match self.parse_type() {
            Ok(v) => v,
            Err(e) => {
                return Err(e);
            },
        };
        let line_info: LineInfo = LineInfo::from_range(&start, &ret);
        Ok(Type::make_function(line_info, params, ret))
    }

    // '[' ('_' | expr)? ']' type
    pub(super) fn parse_bracket_type(&mut self) -> (r: CompileResult<Type>)
        requires
            old(self).wf(),
        ensures
            final(self).wf(),
            goes_on(old(self)@, final(self)@),
            final(self)@ == old(self)@.bracket_type().state,
            result_model(r) == old(self)@.bracket_type().result,
            r is Ok ==> old(self)@.index < final(self)@.index,
            r is Ok ==> r->Ok_0@.has_span(),
        decreases old(self)@.left(), 0nat, 0nat,
    {
        proof {
            reveal(ParseState::bracket_type);
            reveal(ParseState::taipe);
            reveal(ParseState::array_type_rest);
            reveal(ParseState::logical);
        }
        let start: Token = match self.expect(TokenKind::LBrack) {
            Ok(v) => v,
            Err(e) => {
                return Err(e);
            },
        };
        if self.is_at(TokenKind::RBrack) {
            self.get_token();
            let taipe: Type = match self.parse_type() {
                Ok(v) => v,
                Err(e) => {
                    return Err(e);
                },
            };
            let end: LineInfo = self.cur_line_info();
            Ok(Type::make_fat(LineInfo::from_range(&start, &end), taipe))
        } else if self.is_at(TokenKind::Underscore) {
            self.get_token();
            self.parse_array_type_rest(start, None)
        } else {
            let expr: Expr = match self.parse_expr() {
                Ok(v) => v,
                Err(e) => {
                    return Err(e);
                },
            };
            assert(old(self)@.past(self@) == self@);
            self.parse_array_type_rest(start, Some(expr))
        }
    }

    // ']' type
    pub(super) fn parse_array_type_rest(
        &mut self,
        start: Token,
        expr: Option<Expr>,
    ) -> (r: CompileResult<Type>)
        requires
            old(self).wf(),
            old(self)@.index > 0,
        ensures
            final(self).wf(),
            goes_on(old(self)@, final(self)@),
            ({
                let length = match expr {
                    Some(e) => Some(e@),
                    None => None,
                };
                &&& final(self)@ == old(self)@.array_type_rest(start@, length).state
                &&& result_model(r) == old(self)@.array_type_rest(start@, length).result
            }),
            r is Ok ==> r->Ok_0@.has_span(),
        decreases old(self)@.left(), 4nat, 0nat,
    {
        proof {
            reveal(ParseState::array_type_rest);
            reveal(ParseState::taipe);
        }
        self.expect_closing(TokenKind::RBrack);
        let taipe: Type = match self.parse_type() {
            Ok(v) => v,
            Err(e) => {
                return Err(e);
            },
        };
        let end: LineInfo = self.cur_line_info();
        Ok(
            Type::make_array(LineInfo::from_range(&start, &end), taipe, expr),
        )
    }
}

} // verus!
