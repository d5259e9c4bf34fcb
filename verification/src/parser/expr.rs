use vstd::prelude::*;

use crate::ast::{expr_models, Arg, Expr, Type};
use crate::common::{CompileError, CompileResult, copy_errors, LineInfo, result_model};
use crate::parser::{goes_on, Parser};
use crate::parser::model::ParseState;
use crate::token::{Token, TokenKind};

verus! {

broadcast use crate::ast::group_models;

impl Parser {
    // logical ::= logic_not (('and'|'or') logic_not)*
    pub(super) fn parse_logical(&mut self) -> (r: CompileResult<Expr>)
        requires
            old(self).wf(),
        ensures
            final(self).wf(),
            goes_on(old(self)@, final(self)@),
            final(self)@ == old(self)@.logical().state,
            result_model(r) == old(self)@.logical().result,
            r is Ok ==> old(self)@.index < final(self)@.index,
            r is Ok ==> r->Ok_0@.has_span(),
        decreases old(self)@.left(), 22nat, 0nat,
    {
        proof {
            reveal(ParseState::logical);
            reveal(ParseState::logical_rest);
            reveal(ParseState::logic_not);
        }
        let mut left: Expr = match self.parse_logic_not() {
            Ok(v) => v,
            Err(e) => {
                return Err(e);
            },
        };
        let ghost goal = old(self)@.logical();
        assert(old(self)@.past(self@) == self@);
        while self.is_at(TokenKind::And) || self.is_at(TokenKind::Or)
            invariant
                self.wf(),
                goes_on(old(self)@, self@),
                old(self)@.index < self@.index,
                left@.has_span(),
                goal == old(self)@.logical(),
                self@.logical_rest(left@) == goal,
            decreases self@.left(),
        {
            proof {
                reveal(ParseState::logical);
                reveal(ParseState::logical_rest);
                reveal(ParseState::logic_not);
            }
            let ghost before = self@;
            let op: Token = self.get_token();
            let right: Expr = match self.parse_logic_not() {
                Ok(v) => v,
                Err(e) => {
                    return Err(e);
                },
            };
            assert(before.past(self@) == self@);
            left = Expr::make_binary(left, op, right);
        }
        Ok(left)
    }

    // relational ::= bitwise (('<'|'<='|'=='|'!='|'>='|'>') bitwise)*
    pub(super) fn parse_relational(&mut self) -> (r: CompileResult<Expr>)
        requires
            old(self).wf(),
        ensures
            final(self).wf(),
            goes_on(old(self)@, final(self)@),
            final(self)@ == old(self)@.relational().state,
            result_model(r) == old(self)@.relational().result,
            r is Ok ==> old(self)@.index < final(self)@.index,
            r is Ok ==> r->Ok_0@.has_span(),
        decreases old(self)@.left(), 18nat, 0nat,
    {
        proof {
            reveal(ParseState::relational);
            reveal(ParseState::relational_rest);
            reveal(ParseState::bitwise);
        }
        let mut left: Expr = match self.parse_bitwise() {
            Ok(v) => v,
            Err(e) => {
                return Err(e);
            },
        };
        let ghost goal = old(self)@.relational();
        assert(old(self)@.past(self@) == self@);
        while self.is_at(TokenKind::LAngle)
            || self.is_at(TokenKind::LessEq)
            || self.is_at(TokenKind::EqEq)
            || self.is_at(TokenKind::NotEq)
            || self.is_at(TokenKind::GreaterEq)
            || self.is_at(TokenKind::RAngle)
            invariant
                self.wf(),
                goes_on(old(self)@, self@),
                old(self)@.index < self@.index,
                left@.has_span(),
                goal == old(self)@.relational(),
                self@.relational_rest(left@) == goal,
            decreases self@.left(),
        {
            proof {
                reveal(ParseState::relational);
                reveal(ParseState::relational_rest);
                reveal(ParseState::bitwise);
            }
            let ghost before = self@;
            let op: Token = self.get_token();
            let right: Expr = match self.parse_bitwise() {
                Ok(v) => v,
                Err(e) => {
                    return Err(e);
                },
            };
            assert(before.past(self@) == self@);
            left = Expr::make_binary(left, op, right);
        }
        Ok(left)
    }

    // bitwise ::= shift (('&'|'^'|'|') shift)*
    pub(super) fn parse_bitwise(&mut self) -> (r: CompileResult<Expr>)
        requires
            old(self).wf(),
        ensures
            final(self).wf(),
            goes_on(old(self)@, final(self)@),
            final(self)@ == old(self)@.bitwise().state,
            result_model(r) == old(self)@.bitwise().result,
            r is Ok ==> old(self)@.index < final(self)@.index,
            r is Ok ==> r->Ok_0@.has_span(),
        decreases old(self)@.left(), 16nat, 0nat,
    {
        proof {
            reveal(ParseState::bitwise);
            reveal(ParseState::bitwise_rest);
            reveal(ParseState::shift);
        }
        let mut left: Expr = match self.parse_shift() {
            Ok(v) => v,
            Err(e) => {
                return Err(e);
            },
        };
        let ghost goal = old(self)@.bitwise();
        assert(old(self)@.past(self@) == self@);
        while self.is_at(TokenKind::Ampersand)
            || self.is_at(TokenKind::Caret)
            || self.is_at(TokenKind::Pipe)
            invariant
                self.wf(),
                goes_on(old(self)@, self@),
                old(self)@.index < self@.index,
                left@.has_span(),
                goal == old(self)@.bitwise(),
                self@.bitwise_rest(left@) == goal,
            decreases self@.left(),
        {
            proof {
                reveal(ParseState::bitwise);
                reveal(ParseState::bitwise_rest);
                reveal(ParseState::shift);
            }
            let ghost before = self@;
            let op: Token = self.get_token();
            let right: Expr = match self.parse_shift() {
                Ok(v) => v,
                Err(e) => {
                    return Err(e);
                },
            };
            assert(before.past(self@) == self@);
            left = Expr::make_binary(left, op, right);
        }
        Ok(left)
    }

    // shift ::= sum (('<<'|'>>') sum)*
    pub(super) fn parse_shift(&mut self) -> (r: CompileResult<Expr>)
        requires
            old(self).wf(),
        ensures
            final(self).wf(),
            goes_on(old(self)@, final(self)@),
            final(self)@ == old(self)@.shift().state,
            result_model(r) == old(self)@.shift().result,
            r is Ok ==> old(self)@.index < final(self)@.index,
            r is Ok ==> r->Ok_0@.has_span(),
        decreases old(self)@.left(), 14nat, 0nat,
    {
        proof {
            reveal(ParseState::shift);
            reveal(ParseState::shift_rest);
            reveal(ParseState::sum);
        }
        let mut left: Expr = match self.parse_term() {
            Ok(v) => v,
            Err(e) => {
                return Err(e);
            },
        };
        let ghost goal = old(self)@.shift();
        assert(old(self)@.past(self@) == self@);
        while self.is_at(TokenKind::ShiftLeft) || self.is_at(TokenKind::ShiftRight)
            invariant
                self.wf(),
                goes_on(old(self)@, self@),
                old(self)@.index < self@.index,
                left@.has_span(),
                goal == old(self)@.shift(),
                self@.shift_rest(left@) == goal,
            decreases self@.left(),
        {
            proof {
                reveal(ParseState::shift);
                reveal(ParseState::shift_rest);
                reveal(ParseState::sum);
            }
            let ghost before = self@;
            let op: Token = self.get_token();
            let right: Expr = match self.parse_term() {
                Ok(v) => v,
                Err(e) => {
                    return Err(e);
                },
            };
            assert(before.past(self@) == self@);
            left = Expr::make_binary(left, op, right);
        }
        Ok(left)
    }

    // sum ::= factor (('+'('%'|':')?|'-'('%'|':')?) factor)*
    pub(super) fn parse_term(&mut self) -> (r: CompileResult<Expr>)
        requires
            old(self).wf(),
        ensures
            final(self).wf(),
            goes_on(old(self)@, final(self)@),
            final(self)@ == old(self)@.sum().state,
            result_model(r) == old(self)@.sum().result,
            r is Ok ==> old(self)@.index < final(self)@.index,
            r is Ok ==> r->Ok_0@.has_span(),
        decreases old(self)@.left(), 12nat, 0nat,
    {
        proof {
            reveal(ParseState::sum);
            reveal(ParseState::sum_rest);
            reveal(ParseState::factor);
        }
        let mut left: Expr = match self.parse_factor() {
            Ok(v) => v,
            Err(e) => {
                return Err(e);
            },
        };
        let ghost goal = old(self)@.sum();
        assert(old(self)@.past(self@) == self@);
        while self.is_at_sum_op()
            invariant
                self.wf(),
                goes_on(old(self)@, self@),
                old(self)@.index < self@.index,
                left@.has_span(),
                goal == old(self)@.sum(),
                self@.sum_rest(left@) == goal,
            decreases self@.left(),
        {
            proof {
                reveal(ParseState::sum);
                reveal(ParseState::sum_rest);
                reveal(ParseState::factor);
            }
            let ghost before = self@;
            let op: Token = self.get_token();
            let right: Expr = match self.parse_factor() {
                Ok(v) => v,
                Err(e) => {
                    return Err(e);
                },
            };
            assert(before.past(self@) == self@);
            left = Expr::make_binary(left, op, right);
        }
        Ok(left)
    }

    fn is_at_sum_op(&self) -> (r: bool)
        requires
            self.wf(),
        ensures
            r == self@.at_sum_op(),
    {
        self.is_at(TokenKind::Plus) || self.is_at(TokenKind::PlusPercent) || self.is_at(
            TokenKind::PlusColon,
        ) || self.is_at(TokenKind::Minus) || self.is_at(TokenKind::MinusPercent) || self.is_at(
            TokenKind::MinusColon,
        )
    }

    // factor ::= cast (('*'|'/'|'%') cast)*
    pub(super) fn parse_factor(&mut self) -> (r: CompileResult<Expr>)
        requires
            old(self).wf(),
        ensures
            final(self).wf(),
            goes_on(old(self)@, final(self)@),
            final(self)@ == old(self)@.factor().state,
            result_model(r) == old(self)@.factor().result,
            r is Ok ==> old(self)@.index < final(self)@.index,
            r is Ok ==> r->Ok_0@.has_span(),
        decreases old(self)@.left(), 10nat, 0nat,
    {
        proof {
            reveal(ParseState::factor);
            reveal(ParseState::factor_rest);
            reveal(ParseState::cast);
        }
        let mut left: Expr = match self.parse_cast() {
            Ok(v) => v,
            Err(e) => {
                return Err(e);
            },
        };
        let ghost goal = old(self)@.factor();
        assert(old(self)@.past(self@) == self@);
        while self.is_at(TokenKind::Star)
            || self.is_at(TokenKind::Slash)
            || self.is_at(TokenKind::Percent)
            invariant
                self.wf(),
                goes_on(old(self)@, self@),
                old(self)@.index < self@.index,
                left@.has_span(),
                goal == old(self)@.factor(),
                self@.factor_rest(left@) == goal,
            decreases self@.left(),
        {
            proof {
                reveal(ParseState::factor);
                reveal(ParseState::factor_rest);
                reveal(ParseState::cast);
            }
            let ghost before = self@;
            let op: Token = self.get_token();
            let right: Expr = match self.parse_cast() {
                Ok(v) => v,
                Err(e) => {
                    return Err(e);
                },
            };
            assert(before.past(self@) == self@);
            left = Expr::make_binary(left, op, right);
        }
        Ok(left)
    }

    // expr ::= logical
    pub(super) fn parse_expr(&mut self) -> (r: CompileResult<Expr>)
        requires
            old(self).wf(),
        ensures
            final(self).wf(),
            goes_on(old(self)@, final(self)@),
            final(self)@ == old(self)@.logical().state,
            result_model(r) == old(self)@.logical().result,
            r is Ok ==> old(self)@.index < final(self)@.index,
            r is Ok ==> r->Ok_0@.has_span(),
        decreases old(self)@.left(), 22nat, 1nat,
    {
        proof {
            reveal(ParseState::logical);
            reveal(ParseState::logic_not);
            reveal(ParseState::logical_rest);
        }
        self.parse_logical()
    }

    // logic_not ::= 'not'* relational
    pub(super) fn parse_logic_not(&mut self) -> (r: CompileResult<Expr>)
        requires
            old(self).wf(),
        ensures
            final(self).wf(),
            goes_on(old(self)@, final(self)@),
            final(self)@ == old(self)@.logic_not().state,
            result_model(r) == old(self)@.logic_not().result,
            r is Ok ==> old(self)@.index < final(self)@.index,
            r is Ok ==> r->Ok_0@.has_span(),
        decreases old(self)@.left(), 20nat, 0nat,
    {
        proof {
            reveal(ParseState::logic_not);
            reveal(ParseState::relational);
        }
        if self.is_at(TokenKind::Not) {
            let op: Token = self.get_token();
            match self.parse_logic_not() {
                Ok(expr) => Ok(Expr::make_unary(op, expr)),
                Err(e) => Err(e),
            }
        } else {
            self.parse_relational()
        }
    }

    // cast ::= unary ('as' type)*
    pub(super) fn parse_cast(&mut self) -> (r: CompileResult<Expr>)
        requires
            old(self).wf(),
        ensures
            final(self).wf(),
            goes_on(old(self)@, final(self)@),
            final(self)@ == old(self)@.cast().state,
            result_model(r) == old(self)@.cast().result,
            r is Ok ==> old(self)@.index < final(self)@.index,
            r is Ok ==> r->Ok_0@.has_span(),
        decreases old(self)@.left(), 8nat, 0nat,
    {
        proof {
            reveal(ParseState::cast);
            reveal(ParseState::cast_rest);
            reveal(ParseState::unary);
            reveal(ParseState::taipe);
        }
        let mut expr: Expr = match self.parse_unary() {
            Ok(v) => v,
            Err(e) => {
                return Err(e);
            },
        };
        let ghost goal = old(self)@.cast();
        assert(old(self)@.past(self@) == self@);
        while self.is_at(TokenKind::As)
            invariant
                self.wf(),
                goes_on(old(self)@, self@),
                old(self)@.index < self@.index,
                expr@.has_span(),
                goal == old(self)@.cast(),
                self@.cast_rest(expr@) == goal,
            decreases self@.left(),
        {
            proof {
                reveal(ParseState::cast);
                reveal(ParseState::cast_rest);
                reveal(ParseState::unary);
                reveal(ParseState::taipe);
            }
            let ghost before = self@;
            self.get_token();
            let taipe: Type = match self.parse_type() {
                Ok(v) => v,
                Err(e) => {
                    return Err(e);
                },
            };
            assert(before.past(self@) == self@);
            expr = Expr::make_cast(expr, taipe);
        }
        Ok(expr)
    }

    // unary ::= ('sizeof'|'typeof'|'alignof')? prefixed
    pub(super) fn parse_unary(&mut self) -> (r: CompileResult<Expr>)
        requires
            old(self).wf(),
        ensures
            final(self).wf(),
            goes_on(old(self)@, final(self)@),
            final(self)@ == old(self)@.unary().state,
            result_model(r) == old(self)@.unary().result,
            r is Ok ==> old(self)@.index < final(self)@.index,
            r is Ok ==> r->Ok_0@.has_span(),
        decreases old(self)@.left(), 7nat, 0nat,
    {
        proof {
            reveal(ParseState::unary);
            reveal(ParseState::prefixed);
        }
        if self.is_at(TokenKind::Sizeof) || self.is_at(TokenKind::Typeof) || self.is_at(
            TokenKind::Alignof,
        ) {
            let op: Token = self.get_token();
            match self.parse_prefixed() {
                Ok(expr) => Ok(Expr::make_unary(op, expr)),
                Err(e) => Err(e),
            }
        } else {
            self.parse_prefixed()
        }
    }

    // prefixed ::= ('-'|'~'|'*'|'&')* postfix
    fn parse_prefixed(&mut self) -> (r: CompileResult<Expr>)
        requires
            old(self).wf(),
        ensures
            final(self).wf(),
            goes_on(old(self)@, final(self)@),
            final(self)@ == old(self)@.prefixed().state,
            result_model(r) == old(self)@.prefixed().result,
            r is Ok ==> old(self)@.index < final(self)@.index,
            r is Ok ==> r->Ok_0@.has_span(),
        decreases old(self)@.left(), 6nat, 0nat,
    {
        proof {
            reveal(ParseState::prefixed);
            reveal(ParseState::postfix);
        }
        if self.is_at(TokenKind::Minus) || self.is_at(TokenKind::Tilde) || self.is_at(
            TokenKind::Star,
        ) || self.is_at(TokenKind::Ampersand) {
            let op: Token = self.get_token();
            match self.parse_prefixed() {
                Ok(expr) => Ok(Expr::make_unary(op, expr)),
                Err(e) => Err(e),
            }
        } else {
            self.parse_postfix()
        }
    }

    // arg ::= (identifier ':')? expr
    pub(super) fn parse_arg(&mut self) -> (r: CompileResult<Arg>)
        requires
            old(self).wf(),
        ensures
            final(self).wf(),
            goes_on(old(self)@, final(self)@),
            final(self)@ == old(self)@.arg().state,
            result_model(r) == old(self)@.arg().result,
            r is Ok ==> old(self)@.index < final(self)@.index,
        decreases old(self)@.left(), 24nat, 0nat,
    {
        proof {
            reveal(ParseState::arg);
            reveal(ParseState::logical);
        }
        if self.is_at(TokenKind::Ident) && self.is_next(TokenKind::Colon) {
            let name: Token = self.get_token();
            self.get_token();
            match self.parse_expr() {
                Ok(expr) => Ok(Arg::make(Some(name), expr)),
                Err(e) => Err(e),
            }
        } else {
            match self.parse_expr() {
                Ok(expr) => Ok(Arg::make(None, expr)),
                Err(e) => Err(e),
            }
        }
    }

    // postfix ::= primary ('.' (identifier | integer) | '(' arg_list ')' | '[' expr_list ']')*
    pub(super) fn parse_postfix(&mut self) -> (r: CompileResult<Expr>)
        requires
            old(self).wf(),
        ensures
            final(self).wf(),
            goes_on(old(self)@, final(self)@),
            final(self)@ == old(self)@.postfix().state,
            result_model(r) == old(self)@.postfix().result,
            r is Ok ==> old(self)@.index < final(self)@.index,
            r is Ok ==> r->Ok_0@.has_span(),
        decreases old(self)@.left(), 4nat, 0nat,
    {
        proof {
            reveal(ParseState::postfix);
            reveal(ParseState::postfix_rest);
            reveal(ParseState::primary);
            reveal(ParseState::arg_list);
            reveal(ParseState::expr_list);
        }
        let mut expr: Expr = match self.parse_primary() {
            Ok(v) => v,
            Err(e) => {
                return Err(e);
            },
        };
        let ghost goal = old(self)@.postfix();
        assert(old(self)@.past(self@) == self@);
        loop
            invariant
                self.wf(),
                goes_on(old(self)@, self@),
                old(self)@.index < self@.index,
                expr@.has_span(),
                goal == old(self)@.postfix(),
                self@.postfix_rest(expr@) == goal,
            decreases self@.left(),
        {
            proof {
                reveal(ParseState::postfix);
                reveal(ParseState::postfix_rest);
                reveal(ParseState::primary);
                reveal(ParseState::arg_list);
                reveal(ParseState::expr_list);
            }
            let ghost before = self@;
            if self.is_at(TokenKind::Dot) {
                self.get_token();
                if self.is_at(TokenKind::Ident) || self.is_at(TokenKind::IntLit) {
                    let name: Token = self.get_token();
                    expr = Expr::make_member(expr, name);
                } else {
                    return Err(self.expect_err(vec![TokenKind::Ident, TokenKind::IntLit]));
                }
            } else if self.is_at(TokenKind::LParen) {
                self.get_token();
                let args: Vec<Arg> = self.parse_arg_list();
                assert(before.past(self@) == self@);
                let end: Token = self.expect_closing(TokenKind::RParen);
                assert(before.past(self@) == self@);
                let line_info: LineInfo = LineInfo::from_range(&expr, &end);
                expr = Expr::make_call(line_info, expr, args);
            } else if self.is_at(TokenKind::LBrack) {
                self.get_token();
                let items: Vec<Expr> = self.parse_expr_list();
                assert(before.past(self@) == self@);
                let end: Token = self.expect_closing(TokenKind::RBrack);
                assert(before.past(self@) == self@);
                let line_info: LineInfo = LineInfo::from_range(&expr, &end);
                expr = Expr::make_index(line_info, expr, items);
            } else {
                return Ok(expr);
            }
        }
    }

    // primary ::= 'true' | 'false' | string | integer | float | identifier
    //           | '(' expr ')' | tuple | '[' expr_list ']'
    pub(super) fn parse_primary(&mut self) -> (r: CompileResult<Expr>)
        requires
            old(self).wf(),
        ensures
            final(self).wf(),
            goes_on(old(self)@, final(self)@),
            final(self)@ == old(self)@.primary().state,
            result_model(r) == old(self)@.primary().result,
            r is Ok ==> old(self)@.index < final(self)@.index,
            r is Ok ==> r->Ok_0@.has_span(),
        decreases old(self)@.left(), 2nat, 0nat,
    {
        proof {
            reveal(ParseState::primary);
            reveal(ParseState::tuple);
            reveal(ParseState::logical);
            reveal(ParseState::expr_list);
        }
        if self.is_at(TokenKind::True) || self.is_at(TokenKind::False) || self.is_at(
            TokenKind::StringLit,
        ) || self.is_at(TokenKind::IntLit) || self.is_at(TokenKind::FloatLit) || self.is_at(
            TokenKind::Ident,
        ) {
            Ok(Expr::make_literal(self.get_token()))
        } else if self.is_at(TokenKind::LParen) {
            if self.is_next(TokenKind::RParen) {
                return self.parse_tuple();
            }
            let save: usize = self.index;
            let start: Token = self.get_token();
            let expr: Expr = match self.parse_expr() {
                Ok(v) => v,
                Err(e) => {
                    return Err(e);
                },
            };
            if self.is_at(TokenKind::Comma) {
                let ghost errors = self@.errors;
                self.index = save;
                assert(self@ == ParseState { errors, ..old(self)@ });
                return self.parse_tuple();
            }
            let end: Token = self.expect_closing(TokenKind::RParen);
            Ok(Expr::make_paren(LineInfo::from_range(&start, &end), expr))
        } else if self.is_at(TokenKind::LBrack) {
            let start: Token = self.get_token();
            let items: Vec<Expr> = self.parse_expr_list();
            let end: Token = self.expect_closing(TokenKind::RBrack);
            Ok(Expr::make_array_lit(LineInfo::from_range(&start, &end), items))
        } else {
            Err(
                self.expect_err(
                    vec![
                        TokenKind::True,
                        TokenKind::False,
                        TokenKind::IntLit,
                        TokenKind::FloatLit,
                        TokenKind::Ident,
                        TokenKind::LParen,
                        TokenKind::LBrace,
                        TokenKind::LBrack,
                        TokenKind::If,
                        TokenKind::While,
                        TokenKind::Break,
                        TokenKind::Continue,
                        TokenKind::Return,
                    ],
                ),
            )
        }
    }

    // tuple ::= '(' expr_list ')'
    pub(super) fn parse_tuple(&mut self) -> (r: CompileResult<Expr>)
        requires
            old(self).wf(),
        ensures
            final(self).wf(),
            goes_on(old(self)@, final(self)@),
            final(self)@ == old(self)@.tuple().state,
            result_model(r) == old(self)@.tuple().result,
            r is Ok ==> old(self)@.index < final(self)@.index,
            r is Ok ==> r->Ok_0@.has_span(),
        decreases old(self)@.left(), 0nat, 0nat,
    {
        proof {
            reveal(ParseState::tuple);
            reveal(ParseState::expr_list);
        }
        let start: Token = match self.expect(TokenKind::LParen) {
            Ok(v) => v,
            Err(e) => {
                return Err(e);
            },
        };
        let exprs: Vec<Expr> = self.parse_expr_list();
        let end: Token = self.expect_closing(TokenKind::RParen);
        Ok(Expr::make_tuple(LineInfo::from_range(&start, &end), exprs))
    }

    // assignment ::= expr_list '=' expr_list, with at least one expression on each side
    pub(super) fn parse_assignment(&mut self) -> (r: CompileResult<Expr>)
        requires
            old(self).wf(),
        ensures
            final(self).wf(),
            goes_on(old(self)@, final(self)@),
            final(self)@ == old(self)@.assignment().state,
            result_model(r) == old(self)@.assignment().result,
            r is Ok ==> old(self)@.index < final(self)@.index,
            r is Ok ==> r->Ok_0@.has_span(),
        decreases old(self)@.left(), 26nat, 0nat,
    {
        proof {
            reveal(ParseState::assignment);
            reveal(ParseState::expr_list);
        }
        let lhs: Vec<Expr> = self.parse_expr_list();
        assert(expr_models(lhs@).len() == lhs@.len());
        if lhs.len() == 0 {
            return Err(self.make_error_peek("expected left hand size of an assignment".to_owned()));
        }
        assert(old(self)@.past(self@) == self@);
        let op: Token = match self.expect(TokenKind::Equal) {
            Ok(v) => v,
            Err(e) => {
                return Err(e);
            },
        };
        let rhs: Vec<Expr> = self.parse_expr_list();
        assert(expr_models(rhs@).len() == rhs@.len());
        if rhs.len() == 0 {
            return Err(
                self.make_error_peek("expected right hand size of an assignment".to_owned()),
            );
        }
        assert(expr_models(lhs@)[0].has_span());
        assert(expr_models(rhs@)[rhs@.len() - 1].has_span());
        Ok(Expr::make_assign(lhs, op, rhs))
    }

    // expr_or_assign ::= assignment | expr
    pub(super) fn parse_expr_or_assign(&mut self) -> (r: CompileResult<Expr>)
        requires
            old(self).wf(),
        ensures
            final(self).wf(),
            goes_on(old(self)@, final(self)@),
            final(self)@ == old(self)@.expr_or_assign().state,
            result_model(r) == old(self)@.expr_or_assign().result,
            r is Ok ==> old(self)@.index < final(self)@.index,
            r is Ok ==> r->Ok_0@.has_span(),
        decreases old(self)@.left(), 28nat, 0nat,
    {
        proof {
            reveal(ParseState::expr_or_assign);
            reveal(ParseState::assignment);
            reveal(ParseState::logical);
        }
        let save: usize = self.index;
        let errors_save: Vec<CompileError> = copy_errors(&self.errors);
        match self.parse_assignment() {
            Ok(expr) => Ok(expr),
            Err(_) => {
                self.index = save;
                self.errors = errors_save;
                assert(self@ == old(self)@);
                self.parse_logical()
            },
        }
    }
}

} // verus!
