use vstd::prelude::*;

use crate::ast::{decl_models, Decl, Expr, Object};
use crate::common::{
    CompileError, CompileResult, copy_errors, error_models, ErrorView, LineInfo, result_model,
    texts,
};
use crate::text::join2;
use crate::token::{kind_repr, Token, TokenKind, token_models, TokenView};

mod decl;
mod expr;
mod lists;
pub mod laws;
pub mod model;
pub mod region_laws;
mod stmt;
mod types;

use self::model::{
    alternatives, begins_expr, is_recoverable, kind_reprs, ParseState, recovered_text, span_after,
};

verus! {

broadcast use crate::ast::group_models;

/// A recursive descent parser for the language.
pub struct Parser {
    file_path: String,
    tokens: Vec<Token>,
    index: usize,
    errors: Vec<CompileError>,
}

impl View for Parser {
    type V = ParseState;

    closed spec fn view(&self) -> ParseState {
        ParseState {
            file_path: self.file_path@,
            tokens: token_models(self.tokens@),
            index: self.index as int,
            errors: error_models(self.errors@),
        }
    }
}

/// Whether the state `t` comes after `s` in the same tokens.
pub open spec fn goes_on(s: ParseState, t: ParseState) -> bool {
    &&& t.file_path == s.file_path
    &&& t.tokens == s.tokens
    &&& s.index <= t.index
}

/// Whether a token leaves room for the column after it.
pub open spec fn has_room(t: TokenView) -> bool {
    t.line_info.col_end < usize::MAX
}

impl Parser {
    /// Whether the parser stands within its tokens, after each of which there is another column.
    pub open spec fn wf(&self) -> bool {
        &&& 0 <= self@.index <= self@.tokens.len()
        &&& forall|i: int| 0 <= i < self@.tokens.len() ==> has_room(#[trigger] self@.tokens[i])
    }

    /// A parser for the tokens of a file.
    pub fn new(file_path: &str, tokens: &[Token]) -> (r: CompileResult<Self>)
        requires
            forall|i: int| 0 <= i < tokens@.len() ==> has_room((#[trigger] tokens@[i])@),
        ensures
            r is Ok,
            r->Ok_0.wf(),
            r->Ok_0@ == (ParseState {
                file_path: file_path@,
                tokens: token_models(tokens@),
                index: 0,
                errors: seq![],
            }),
    {
        let mut copies: Vec<Token> = Vec::new();
        let mut i: usize = 0;
        while i < tokens.len()
            invariant
                i <= tokens@.len(),
                token_models(copies@) == token_models(tokens@).take(i as int),
            decreases tokens@.len() - i,
        {
            let ghost before = copies@;
            copies.push(tokens[i].copy());
            proof {
                assert(token_models(copies@) == token_models(before).push(tokens@[i as int]@));
                assert(token_models(tokens@).take(i + 1) == token_models(tokens@).take(
                    i as int,
                ).push(tokens@[i as int]@));
            }
            i = i + 1;
        }
        let errors: Vec<CompileError> = Vec::new();
        proof {
            assert(token_models(tokens@).take(i as int) == token_models(tokens@));
            assert(error_models(errors@) == Seq::<ErrorView>::empty());
        }
        Ok(Parser { file_path: file_path.to_owned(), tokens: copies, index: 0, errors })
    }

    /// program ::= decls. Tokens that begin no declaration end the program. What was missing and
    /// could be made up for is reported all together.
    pub fn parse(&mut self) -> (r: CompileResult<Object>)
        requires
            old(self).wf(),
        ensures
            final(self).wf(),
            goes_on(old(self)@, final(self)@),
            final(self)@ == old(self)@.program().state,
            result_model(r) == old(self)@.program().result,
    {
        let decls: Vec<Decl> = match self.parse_decls() {
            Ok(decls) => decls,
            Err(e) => {
                return Err(e);
            },
        };
        assert(error_models(self.errors@).len() == self.errors@.len());
        if self.errors.len() == 0 {
            assert(decl_models(decls@).len() == decls@.len());
            let line_info: LineInfo = if decls.len() == 0 {
                LineInfo::default()
            } else {
                LineInfo::from_range(&decls[0], &decls[decls.len() - 1])
            };
            Ok(Object::make_module(line_info, decls))
        } else {
            Err(CompileError::Errors(copy_errors(&self.errors)))
        }
    }

    fn is_expr_start(&self) -> (r: bool)
        requires
            self.wf(),
        ensures
            r == (self@.peek() is Some && begins_expr(self@.peek()->0.kind)),
    {
        if self.index >= self.tokens.len() {
            return false;
        }
        match self.tokens[self.index].kind {
            // Expr begin tokens
            TokenKind::Not
            | TokenKind::Plus
            | TokenKind::Minus
            | TokenKind::Tilde
            | TokenKind::Star
            | TokenKind::Ampersand
            | TokenKind::Sizeof
            | TokenKind::Alignof
            | TokenKind::Typeof
            // Primary expr begin tokens
            | TokenKind::True
            | TokenKind::False
            | TokenKind::StringLit
            | TokenKind::IntLit
            | TokenKind::FloatLit
            | TokenKind::Ident
            | TokenKind::LParen
            | TokenKind::LBrace
            | TokenKind::LBrack => true,
            _ => false,
        }
    }

    fn is_at(&self, kind: TokenKind) -> (r: bool)
        requires
            self.wf(),
        ensures
            r == self@.at(kind),
    {
        self.index < self.tokens.len() && self.tokens[self.index].kind == kind
    }

    fn is_next(&self, kind: TokenKind) -> (r: bool)
        requires
            self.wf(),
        ensures
            r == (self@.peek_at(1) is Some && self@.peek_at(1)->0.kind == kind),
    {
        self.index < self.tokens.len()
            && self.index + 1 < self.tokens.len()
            && self.tokens[self.index + 1].kind == kind
    }

    fn get_token(&mut self) -> (r: Token)
        requires
            old(self).wf(),
            old(self)@.peek() is Some,
        ensures
            final(self).wf(),
            final(self)@ == old(self)@.taken(),
            goes_on(old(self)@, final(self)@),
            Some(r@) == old(self)@.peek(),
    {
        let count: usize = self.tokens.len();
        assert(self.index < count);
        let r: Token = self.tokens[self.index].copy();
        self.index = self.index + 1;
        r
    }

    fn check(&mut self, kind: TokenKind) -> (r: bool)
        requires
            old(self).wf(),
        ensures
            final(self).wf(),
            r == old(self)@.at(kind),
            final(self)@ == (if r {
                old(self)@.taken()
            } else {
                old(self)@
            }),
    {
        if self.index < self.tokens.len() && self.is_at(kind) {
            self.index = self.index + 1;
            true
        } else {
            false
        }
    }

    fn after(line_info: LineInfo) -> (r: LineInfo)
        requires
            line_info@.col_end < usize::MAX,
        ensures
            r@ == span_after(line_info@),
    {
        LineInfo {
            line_start: line_info.line_end,
            line_end: line_info.line_end,
            col_start: line_info.col_end,
            col_end: line_info.col_end + 1,
        }
    }

    fn get_last_line_info(&self) -> (r: LineInfo)
        requires
            self.wf(),
        ensures
            r@ == self@.last_span(),
    {
        if self.tokens.len() > 0 {
            assert(self@.tokens.last() == self.tokens@.last()@);
            assert(has_room(self@.tokens[self@.tokens.len() - 1]));
            Self::after(self.tokens[self.tokens.len() - 1].line_info)
        } else {
            LineInfo { line_start: 1, line_end: 1, col_start: 1, col_end: 2 }
        }
    }

    /// The place after the token read last.
    fn get_here(&self) -> (r: LineInfo)
        requires
            self.wf(),
        ensures
            r@ == self@.here(),
    {
        if self.index > 0 {
            assert(has_room(self@.tokens[self.index - 1]));
            Self::after(self.tokens[self.index - 1].line_info)
        } else {
            self.get_last_line_info()
        }
    }

    /// The region of the token read last.
    fn cur_line_info(&self) -> (r: LineInfo)
        requires
            self.wf(),
            self@.index > 0,
        ensures
            r@ == self@.cur()->0.line_info,
    {
        self.tokens[self.index - 1].line_info
    }

    fn expect_err_more(&self, item: &str, kinds: Vec<TokenKind>) -> (r: CompileError)
        requires
            self.wf(),
        ensures
            r@ == self@.expected_one_of(seq![item@], kinds@),
    {
        proof {
            reveal(ParseState::expected_one_of);
        }
        let mut elements: Vec<String> = Vec::new();
        elements.push(item.to_owned());
        assert(texts(elements@) == seq![item@]);
        self.expect_err_elements(elements, kinds)
    }

    fn expect_err(&self, kinds: Vec<TokenKind>) -> (r: CompileError)
        requires
            self.wf(),
        ensures
            r@ == self@.expected_kinds(kinds@),
    {
        let elements: Vec<String> = Vec::new();
        assert(texts(elements@) == Seq::<Seq<char>>::empty());
        self.expect_err_elements(elements, kinds)
    }

    fn expect_err_elements(&self, items: Vec<String>, kinds: Vec<TokenKind>) -> (r: CompileError)
        requires
            self.wf(),
        ensures
            r@ == self@.expected_one_of(texts(items@), kinds@),
    {
        proof {
            reveal(ParseState::expected_one_of);
        }
        let ghost shown = texts(items@);
        let ghost all = shown + kind_reprs(kinds@);
        let mut elements: Vec<String> = items;
        let mut k: usize = 0;
        assert(all.take(shown.len() as int) == shown);
        while k < kinds.len()
            invariant
                k <= kinds@.len(),
                all == shown + kind_reprs(kinds@),
                texts(elements@) == all.take(shown.len() + k),
            decreases kinds@.len() - k,
        {
            proof {
                reveal(ParseState::expected_one_of);
            }
            let ghost before = elements@;
            elements.push(kinds[k].get_repr().to_owned());
            proof {
                assert(texts(elements@) == texts(before).push(
                    kind_repr(kinds@[k as int]),
                ));
                assert(all.take(shown.len() + k + 1) == all.take(shown.len() + k).push(
                    kind_repr(kinds@[k as int]),
                ));
            }
            k = k + 1;
        }
        assert(all.take(shown.len() + k) == all);
        let count: usize = elements.len();
        let mut msg: String = "expected ".to_owned();
        let mut i: usize = 0;
        assert(msg@ + alternatives(all, 0) == "expected "@ + alternatives(all, 0));
        while i < count
            invariant
                i <= count,
                count == elements@.len(),
                texts(elements@) == all,
                msg@ + alternatives(all, i as int) == "expected "@ + alternatives(all, 0),
            decreases count - i,
        {
            proof {
                reveal(ParseState::expected_one_of);
            }
            let ghost before = msg@;
            assert(all[i as int] == elements@[i as int]@);
            msg.append(&elements[i]);
            if count - i > 2 {
                msg.append(", ");
            } else if count - i == 2 {
                msg.append(" or ");
            }
            assert(before + alternatives(all, i as int) == msg@ + alternatives(all, i + 1));
            i = i + 1;
        }
        assert(msg@ + alternatives(all, i as int) == msg@);
        self.make_error(self.get_here(), msg)
    }

    fn expect(&mut self, kind: TokenKind) -> (r: CompileResult<Token>)
        requires
            old(self).wf(),
            !is_recoverable(kind),
        ensures
            final(self).wf(),
            goes_on(old(self)@, final(self)@),
            final(self)@ == old(self)@.expected(kind).state,
            result_model(r) == old(self)@.expected(kind).result,
            r is Ok ==> old(self)@.index < final(self)@.index,
    {
        if self.is_at(kind) {
            Ok(self.get_token())
        } else {
            Err(self.make_error(self.get_here(), join2("expected ", kind.get_repr())))
        }
    }

    /// A closing mark. Where it is missing, that is reported and the mark is made up for.
    fn expect_closing(&mut self, kind: TokenKind) -> (r: Token)
        requires
            old(self).wf(),
            is_recoverable(kind),
        ensures
            final(self).wf(),
            goes_on(old(self)@, final(self)@),
            old(self)@.expected(kind) == final(self)@.ok(r@),
    {
        if self.is_at(kind) {
            self.get_token()
        } else {
            let line_info: LineInfo = self.get_here();
            self.recover_error(kind, line_info)
        }
    }

    fn expect_term(&mut self) -> (r: Token)
        requires
            old(self).wf(),
        ensures
            final(self).wf(),
            goes_on(old(self)@, final(self)@),
            old(self)@.expected(TokenKind::Semicolon) == final(self)@.ok(r@),
    {
        self.expect_closing(TokenKind::Semicolon)
    }

    fn recover_error(&mut self, kind: TokenKind, line_info: LineInfo) -> (r: Token)
        requires
            old(self).wf(),
            is_recoverable(kind),
        ensures
            final(self).wf(),
            final(self)@ == (ParseState {
                errors: old(self)@.errors.push(
                    old(self)@.error_at(line_info@, "expected "@ + kind_repr(kind)),
                ),
                ..old(self)@
            }),
            r@ == (
                TokenView { line_info: line_info@, kind, text: recovered_text(kind), value: None }
            ),
    {
        let ghost before = self.errors@;
        let error: CompileError = self.make_error(line_info, join2("expected ", kind.get_repr()));
        self.errors.push(error);
        assert(error_models(self.errors@) == error_models(before).push(error@));
        let text: String = match kind {
            TokenKind::Semicolon => ";".to_owned(),
            TokenKind::RParen => ")".to_owned(),
            TokenKind::RBrace => "}".to_owned(),
            _ => "]".to_owned(),
        };
        Token { line_info, kind, text, value: None }
    }

    fn make_error(&self, line_info: LineInfo, msg: String) -> (r: CompileError)
        ensures
            r@ == self@.error_at(line_info@, msg@),
    {
        CompileError::ParserError { file_path: self.file_path.clone(), line_info, msg }
    }

    fn make_error_peek(&self, msg: String) -> (r: CompileError)
        requires
            self.wf(),
        ensures
            r@ == self@.error_peek(msg@),
    {
        if self.index < self.tokens.len() {
            self.make_error(self.tokens[self.index].line_info, msg)
        } else {
            self.make_error(self.get_last_line_info(), msg)
        }
    }
}

} // verus!
