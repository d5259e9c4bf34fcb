use vstd::prelude::*;

use crate::ast::{option_token_model, stmt_models, Expr, Stmt, StmtView};
use crate::common::{CompileError, CompileResult, copy_errors, LineInfo, result_model};
use crate::parser::{goes_on, Parser};
use crate::parser::model::ParseState;
use crate::token::{Token, TokenKind};

verus! {

broadcast use crate::ast::group_models;

impl Parser {
    // block ::= '{' (decl | stmt)* '}'
    pub(super) fn parse_block(&mut self) -> (r: CompileResult<Stmt>)
        requires
            old(self).wf(),
        ensures
            final(self).wf(),
            goes_on(old(self)@, final(self)@),
            final(self)@ == old(self)@.block().state,
            result_model(r) == old(self)@.block().result,
            r is Ok ==> old(self)@.index < final(self)@.index,
            r is Ok ==> r->Ok_0@.has_span(),
        decreases old(self)@.left(), 30nat, 0nat,
    {
        proof {
            reveal(ParseState::block);
            reveal(ParseState::block_rest);
            reveal(ParseState::decl_or_stmt);
        }
        let start: Token = match self.expect(TokenKind::LBrace) {
            Ok(v) => v,
            Err(e) => {
                return Err(e);
            },
        };
        let mut stmts: Vec<Stmt> = Vec::new();
        let ghost first = self@;
        assert(stmt_models(stmts@) == Seq::<StmtView>::empty());
        while self.index < self.tokens.len() && !self.is_at(TokenKind::RBrace)
            invariant
                self.wf(),
                goes_on(first, self@),
                goes_on(old(self)@, first),
                old(self)@.index < first.index,
                first == old(self)@.expected(TokenKind::LBrace).state,
                old(self)@.expected(TokenKind::LBrace).result is Ok,
                self@.block_rest(stmt_models(stmts@)) == first.block_rest(seq![]),
            decreases self@.left(),
        {
            proof {
                reveal(ParseState::block);
                reveal(ParseState::block_rest);
                reveal(ParseState::decl_or_stmt);
            }
            let ghost before = self@;
            let ghost read = stmts@;
            let stmt: Stmt = match self.parse_decl_or_stmt() {
                Ok(v) => v,
                Err(e) => {
                    return Err(e);
                },
            };
            assert(before.past(self@) == self@);
            stmts.push(stmt);
            assert(stmt_models(stmts@) == stmt_models(read).push(stmt@));
        }
        let end: Token = self.expect_closing(TokenKind::RBrace);
        Ok(Stmt::make_block(LineInfo::from_range(&start, &end), stmts))
    }

    // decl | stmt
    pub(super) fn parse_decl_or_stmt(&mut self) -> (r: CompileResult<Stmt>)
        requires
            old(self).wf(),
        ensures
            final(self).wf(),
            goes_on(old(self)@, final(self)@),
            final(self)@ == old(self)@.decl_or_stmt().state,
            result_model(r) == old(self)@.decl_or_stmt().result,
            r is Ok ==> old(self)@.index < final(self)@.index,
        decreases old(self)@.left(), 48nat, 0nat,
    {
        proof {
            reveal(ParseState::decl_or_stmt);
            reveal(ParseState::decl);
            reveal(ParseState::stmt);
        }
        let save: usize = self.index;
        let errors_save: Vec<CompileError> = copy_errors(&self.errors);
        match self.parse_decl() {
            Ok(decl) => Ok(Stmt::make_decl(decl)),
            Err(_) => {
                self.index = save;
                self.errors = errors_save;
                assert(self@ == old(self)@);
                self.parse_stmt()
            },
        }
    }

    // stmt ::= if_stmt | while_stmt | block
    //        | 'yield' expr ';'
    //        | 'continue' label? ';'
    //        | 'break' label? ';'
    //        | 'return' expr? ';'
    //        | expr_or_assign ';'
    //        | ';'
    pub(super) fn parse_stmt(&mut self) -> (r: CompileResult<Stmt>)
        requires
            old(self).wf(),
        ensures
            final(self).wf(),
            goes_on(old(self)@, final(self)@),
            final(self)@ == old(self)@.stmt().state,
            result_model(r) == old(self)@.stmt().result,
            r is Ok ==> old(self)@.index < final(self)@.index,
        decreases old(self)@.left(), 40nat, 0nat,
    {
        proof {
            reveal(ParseState::stmt);
            reveal(ParseState::if_stmt);
            reveal(ParseState::while_stmt);
            reveal(ParseState::block);
            reveal(ParseState::logical);
            reveal(ParseState::expr_or_assign);
        }
        if self.is_at(TokenKind::If) {
            self.parse_if_stmt()
        } else if self.is_at(TokenKind::Label) {
            if self.is_next(TokenKind::While) {
                self.parse_while_stmt()
            } else if self.is_next(TokenKind::LBrace) {
                self.parse_block()
            } else {
                Err(self.expect_err(vec![TokenKind::While, TokenKind::LBrace]))
            }
        } else if self.is_at(TokenKind::While) {
            self.parse_while_stmt()
        } else if self.is_at(TokenKind::LBrace) {
            self.parse_block()
        } else if self.is_at(TokenKind::Yield) {
            let token: Token = self.get_token();
            let expr: Expr = match self.parse_expr() {
                Ok(v) => v,
                Err(e) => {
                    return Err(e);
                },
            };
            self.expect_term();
            Ok(Stmt::make_yield(token, expr))
        } else if self.is_at(TokenKind::Continue) {
            let token: Token = self.get_token();
            let label: Option<Token> = self.parse_label();
            self.expect_term();
            Ok(Stmt::make_continue(token, label))
        } else if self.is_at(TokenKind::Break) {
            let token: Token = self.get_token();
            let label: Option<Token> = self.parse_label();
            self.expect_term();
            Ok(Stmt::make_break(token, label))
        } else if self.is_at(TokenKind::Return) {
            let token: Token = self.get_token();
            let ghost first = self@;
            let save: usize = self.index;
            let errors_save: Vec<CompileError> = copy_errors(&self.errors);
            let expr: Option<Expr> = match self.parse_expr() {
                Ok(expr) => Some(expr),
                Err(_) => {
                    self.index = save;
                    self.errors = errors_save;
                    assert(self@ == first);
                    None
                },
            };
            self.expect_term();
            Ok(Stmt::make_return(token, expr))
        } else if self.is_at(TokenKind::Semicolon) {
            Ok(Stmt::make_nop(self.get_token()))
        } else if self.is_expr_start() {
            let expr: Expr = match self.parse_expr_or_assign() {
                Ok(v) => v,
                Err(e) => {
                    return Err(e);
                },
            };
            self.expect_term();
            Ok(Stmt::make_expr(expr))
        } else {
            Err(
                self.expect_err_more(
                    "<expression>",
                    vec![
                        TokenKind::If,
                        TokenKind::Label,
                        TokenKind::While,
                        TokenKind::LBrace,
                        TokenKind::Yield,
                        TokenKind::Continue,
                        TokenKind::Break,
                        TokenKind::Return,
                    ],
                ),
            )
        }
    }

    // label?
    pub(super) fn parse_label(&mut self) -> (r: Option<Token>)
        requires
            old(self).wf(),
        ensures
            final(self).wf(),
            goes_on(old(self)@, final(self)@),
            final(self)@ == old(self)@.label().0,
            option_token_model(r) == old(self)@.label().1,
    {
        if self.is_at(TokenKind::Label) {
            Some(self.get_token())
        } else {
            None
        }
    }

    // if_stmt ::= 'if' expr block ('else' block)?
    pub(super) fn parse_if_stmt(&mut self) -> (r: CompileResult<Stmt>)
        requires
            old(self).wf(),
        ensures
            final(self).wf(),
            goes_on(old(self)@, final(self)@),
            final(self)@ == old(self)@.if_stmt().state,
            result_model(r) == old(self)@.if_stmt().result,
            r is Ok ==> old(self)@.index < final(self)@.index,
        decreases old(self)@.left(), 32nat, 0nat,
    {
        proof {
            reveal(ParseState::if_stmt);
            reveal(ParseState::logical);
            reveal(ParseState::block);
        }
        let start: Token = match self.expect(TokenKind::If) {
            Ok(v) => v,
            Err(e) => {
                return Err(e);
            },
        };
        let expr: Expr = match self.parse_expr() {
            Ok(v) => v,
            Err(e) => {
                return Err(e);
            },
        };
        assert(old(self)@.past(self@) == self@);
        let then_body: Stmt = match self.parse_block() {
            Ok(v) => v,
            Err(e) => {
                return Err(e);
            },
        };
        assert(old(self)@.past(self@) == self@);
        let else_body: Option<Stmt> = if self.is_at(TokenKind::Else) {
            self.get_token();
            match self.parse_block() {
                Ok(v) => Some(v),
                Err(e) => {
                    return Err(e);
                },
            }
        } else {
            None
        };
        let end: LineInfo = self.cur_line_info();
        Ok(
            Stmt::make_if(LineInfo::from_range(&start, &end), expr, then_body, else_body),
        )
    }

    // while_stmt ::= label? 'while' expr block
    pub(super) fn parse_while_stmt(&mut self) -> (r: CompileResult<Stmt>)
        requires
            old(self).wf(),
        ensures
            final(self).wf(),
            goes_on(old(self)@, final(self)@),
            final(self)@ == old(self)@.while_stmt().state,
            result_model(r) == old(self)@.while_stmt().result,
            r is Ok ==> old(self)@.index < final(self)@.index,
        decreases old(self)@.left(), 32nat, 0nat,
    {
        proof {
            reveal(ParseState::while_stmt);
            reveal(ParseState::logical);
            reveal(ParseState::block);
        }
        let label: Option<Token> = self.parse_label();
        let start: Token = match self.expect(TokenKind::While) {
            Ok(v) => v,
            Err(e) => {
                return Err(e);
            },
        };
        let expr: Expr = match self.parse_expr() {
            Ok(v) => v,
            Err(e) => {
                return Err(e);
            },
        };
        assert(old(self)@.past(self@) == self@);
        let then_body: Stmt = match self.parse_block() {
            Ok(v) => v,
            Err(e) => {
                return Err(e);
            },
        };
        let end: LineInfo = self.cur_line_info();
        let begin: LineInfo = match &label {
            Some(l) => l.line_info,
            None => start.line_info,
        };
        Ok(
            Stmt::make_while(LineInfo::from_range(&begin, &end), label, expr, then_body),
        )
    }
}

} // verus!
