use vstd::prelude::*;

use crate::ast::{
    ArgView, DeclView, ExprView, FieldView, ObjectView, ParamView, StmtView, TypeView,
};
use crate::common::{ErrorView, Span, span_from};
use crate::token::{kind_repr, TokenKind, TokenView};

verus! {

/// The state of the parser as mathematical values: `index` is the next token to read, and
/// `errors` are the reports on what was missing and could be made up for.
pub struct ParseState {
    pub file_path: Seq<char>,
    pub tokens: Seq<TokenView>,
    pub index: int,
    pub errors: Seq<ErrorView>,
}

/// What a rule of the grammar gives: the state after it, and what it read or reports.
pub struct Parsed<T> {
    pub state: ParseState,
    pub result: Result<T, ErrorView>,
}

/// The place right after a region.
pub open spec fn span_after(s: Span) -> Span {
    Span {
        line_start: s.line_end,
        line_end: s.line_end,
        col_start: s.col_end,
        col_end: s.col_end + 1,
    }
}

/// How the alternatives from the `i`-th on are listed: with commas, and "or" before the last.
pub open spec fn alternatives(elements: Seq<Seq<char>>, i: int) -> Seq<char>
    decreases elements.len() - i,
{
    if i < 0 || i >= elements.len() {
        seq![]
    } else {
        let separator = if i + 2 < elements.len() {
            ", "@
        } else if i + 2 == elements.len() {
            " or "@
        } else {
            seq![]
        };
        elements[i] + separator + alternatives(elements, i + 1)
    }
}

/// How several kinds of tokens are shown to the user.
pub open spec fn kind_reprs(kinds: Seq<TokenKind>) -> Seq<Seq<char>> {
    kinds.map_values(|k: TokenKind| kind_repr(k))
}

/// Whether the parser makes up for a missing token of this kind.
pub open spec fn is_recoverable(kind: TokenKind) -> bool {
    kind == TokenKind::Semicolon || kind == TokenKind::RParen || kind == TokenKind::RBrace || kind
        == TokenKind::RBrack
}

/// The text of a token that the parser makes up for.
pub open spec fn recovered_text(kind: TokenKind) -> Seq<char> {
    match kind {
        TokenKind::Semicolon => ";"@,
        TokenKind::RParen => ")"@,
        TokenKind::RBrace => "}"@,
        _ => "]"@,
    }
}

/// Whether a token of this kind can begin an expression.
pub open spec fn begins_expr(kind: TokenKind) -> bool {
    match kind {
        TokenKind::Not
        | TokenKind::Plus
        | TokenKind::Minus
        | TokenKind::Tilde
        | TokenKind::Star
        | TokenKind::Ampersand
        | TokenKind::Sizeof
        | TokenKind::Alignof
        | TokenKind::Typeof
        | TokenKind::True
        | TokenKind::False
        | TokenKind::StringLit
        | TokenKind::IntLit
        | TokenKind::FloatLit
        | TokenKind::Ident
        | TokenKind::LParen
        | TokenKind::LBrace
        | TokenKind::LBrack => true,
        _ => false,
    }
}

impl ParseState {
    /// The token `i` places after the next one.
    pub open spec fn peek_at(self, i: int) -> Option<TokenView> {
        if 0 <= self.index + i < self.tokens.len() {
            Some(self.tokens[self.index + i])
        } else {
            None
        }
    }

    /// The next token.
    pub open spec fn peek(self) -> Option<TokenView> {
        self.peek_at(0)
    }

    /// Whether the next token is of the given kind.
    pub open spec fn at(self, kind: TokenKind) -> bool {
        self.peek() is Some && self.peek()->0.kind == kind
    }

    /// The token read last.
    pub open spec fn cur(self) -> Option<TokenView> {
        self.peek_at(-1)
    }

    /// The state after the next token.
    pub open spec fn taken(self) -> ParseState {
        ParseState { index: self.index + 1, ..self }
    }

    /// How many tokens are left.
    pub open spec fn left(self) -> nat {
        if self.index <= self.tokens.len() {
            (self.tokens.len() - self.index) as nat
        } else {
            0
        }
    }

    /// The state `next`, which lies behind this one in the same tokens.
    pub open spec fn past(self, next: ParseState) -> ParseState {
        ParseState {
            file_path: self.file_path,
            tokens: self.tokens,
            index: if self.index < next.index <= self.tokens.len() {
                next.index
            } else {
                self.tokens.len() as int
            },
            errors: next.errors,
        }
    }

    /// Success in this state.
    pub open spec fn ok<T>(self, value: T) -> Parsed<T> {
        Parsed { state: self, result: Ok(value) }
    }

    /// Failure in this state.
    pub open spec fn fail<T>(self, error: ErrorView) -> Parsed<T> {
        Parsed { state: self, result: Err(error) }
    }

    /// A report on a region.
    pub open spec fn error_at(self, line_info: Span, msg: Seq<char>) -> ErrorView {
        ErrorView::ParserError { file_path: self.file_path, line_info, msg }
    }

    /// The place after the last of all tokens.
    pub open spec fn last_span(self) -> Span {
        if self.tokens.len() > 0 {
            span_after(self.tokens.last().line_info)
        } else {
            Span { line_start: 1, line_end: 1, col_start: 1, col_end: 2 }
        }
    }

    /// The place after the token read last.
    pub open spec fn here(self) -> Span {
        match self.cur() {
            Some(tok) => span_after(tok.line_info),
            None => self.last_span(),
        }
    }

    /// A report on the next token.
    pub open spec fn error_peek(self, msg: Seq<char>) -> ErrorView {
        match self.peek() {
            Some(tok) => self.error_at(tok.line_info, msg),
            None => self.error_at(self.last_span(), msg),
        }
    }

    /// The report that one of several things was expected.
    #[verifier::opaque]
    pub open spec fn expected_one_of(
        self,
        items: Seq<Seq<char>>,
        kinds: Seq<TokenKind>,
    ) -> ErrorView {
        self.error_at(self.here(), "expected "@ + alternatives(items + kind_reprs(kinds), 0))
    }

    /// The report that a token of one of several kinds was expected.
    pub open spec fn expected_kinds(self, kinds: Seq<TokenKind>) -> ErrorView {
        self.expected_one_of(seq![], kinds)
    }

    /// A token of the given kind. A missing closing mark is reported and made up for.
    pub open spec fn expected(self, kind: TokenKind) -> Parsed<TokenView> {
        if self.at(kind) {
            self.taken().ok(self.peek()->0)
        } else {
            let error = self.error_at(self.here(), "expected "@ + kind_repr(kind));
            if is_recoverable(kind) {
                ParseState { errors: self.errors.push(error), ..self }.ok(
                    TokenView {
                        line_info: self.here(),
                        kind,
                        text: recovered_text(kind),
                        value: None,
                    },
                )
            } else {
                self.fail(error)
            }
        }
    }

    /// logical ::= logic_not (('and'|'or') logic_not)*
    #[verifier::opaque]
    pub open spec fn logical(self) -> Parsed<ExprView>
        decreases self.left(), 22nat,
    {
        let first = self.logic_not();
        match first.result {
            Err(e) => first,
            Ok(left) => self.past(first.state).logical_rest(left),
        }
    }

    /// The operators and operands that follow the left operand.
    #[verifier::opaque]
    pub open spec fn logical_rest(self, left: ExprView) -> Parsed<ExprView>
        decreases self.left(), 0nat,
    {
        if self.at(TokenKind::And) || self.at(TokenKind::Or) {
            let next = self.taken().logic_not();
            match next.result {
                Err(e) => next,
                Ok(right) => self.past(next.state).logical_rest(
                    ExprView::Binary {
                        left: Box::new(left),
                        op: self.peek()->0,
                        right: Box::new(right),
                    },
                ),
            }
        } else {
            self.ok(left)
        }
    }

    /// relational ::= bitwise (('<'|'<='|'=='|'!='|'>='|'>') bitwise)*
    #[verifier::opaque]
    pub open spec fn relational(self) -> Parsed<ExprView>
        decreases self.left(), 18nat,
    {
        let first = self.bitwise();
        match first.result {
            Err(e) => first,
            Ok(left) => self.past(first.state).relational_rest(left),
        }
    }

    /// The operators and operands that follow the left operand.
    #[verifier::opaque]
    pub open spec fn relational_rest(self, left: ExprView) -> Parsed<ExprView>
        decreases self.left(), 0nat,
    {
        if self.at(TokenKind::LAngle)
            || self.at(TokenKind::LessEq)
            || self.at(TokenKind::EqEq)
            || self.at(TokenKind::NotEq)
            || self.at(TokenKind::GreaterEq)
            || self.at(TokenKind::RAngle) {
            let next = self.taken().bitwise();
            match next.result {
                Err(e) => next,
                Ok(right) => self.past(next.state).relational_rest(
                    ExprView::Binary {
                        left: Box::new(left),
                        op: self.peek()->0,
                        right: Box::new(right),
                    },
                ),
            }
        } else {
            self.ok(left)
        }
    }

    /// bitwise ::= shift (('&'|'^'|'|') shift)*
    #[verifier::opaque]
    pub open spec fn bitwise(self) -> Parsed<ExprView>
        decreases self.left(), 16nat,
    {
        let first = self.shift();
        match first.result {
            Err(e) => first,
            Ok(left) => self.past(first.state).bitwise_rest(left),
        }
    }

    /// The operators and operands that follow the left operand.
    #[verifier::opaque]
    pub open spec fn bitwise_rest(self, left: ExprView) -> Parsed<ExprView>
        decreases self.left(), 0nat,
    {
        if self.at(TokenKind::Ampersand) || self.at(TokenKind::Caret) || self.at(TokenKind::Pipe) {
            let next = self.taken().shift();
            match next.result {
                Err(e) => next,
                Ok(right) => self.past(next.state).bitwise_rest(
                    ExprView::Binary {
                        left: Box::new(left),
                        op: self.peek()->0,
                        right: Box::new(right),
                    },
                ),
            }
        } else {
            self.ok(left)
        }
    }

    /// shift ::= sum (('<<'|'>>') sum)*
    #[verifier::opaque]
    pub open spec fn shift(self) -> Parsed<ExprView>
        decreases self.left(), 14nat,
    {
        let first = self.sum();
        match first.result {
            Err(e) => first,
            Ok(left) => self.past(first.state).shift_rest(left),
        }
    }

    /// The operators and operands that follow the left operand.
    #[verifier::opaque]
    pub open spec fn shift_rest(self, left: ExprView) -> Parsed<ExprView>
        decreases self.left(), 0nat,
    {
        if self.at(TokenKind::ShiftLeft) || self.at(TokenKind::ShiftRight) {
            let next = self.taken().sum();
            match next.result {
                Err(e) => next,
                Ok(right) => self.past(next.state).shift_rest(
                    ExprView::Binary {
                        left: Box::new(left),
                        op: self.peek()->0,
                        right: Box::new(right),
                    },
                ),
            }
        } else {
            self.ok(left)
        }
    }

    /// sum ::= factor (('+'('%'|':')?|'-'('%'|':')?) factor)*
    #[verifier::opaque]
    pub open spec fn sum(self) -> Parsed<ExprView>
        decreases self.left(), 12nat,
    {
        let first = self.factor();
        match first.result {
            Err(e) => first,
            Ok(left) => self.past(first.state).sum_rest(left),
        }
    }

    /// Whether an operator of a sum comes next: `+` or `-`, with a mark `%` or `:` or without.
    pub open spec fn at_sum_op(self) -> bool {
        ||| self.at(TokenKind::Plus)
        ||| self.at(TokenKind::PlusPercent)
        ||| self.at(TokenKind::PlusColon)
        ||| self.at(TokenKind::Minus)
        ||| self.at(TokenKind::MinusPercent)
        ||| self.at(TokenKind::MinusColon)
    }

    /// The operators and operands that follow the left operand.
    #[verifier::opaque]
    pub open spec fn sum_rest(self, left: ExprView) -> Parsed<ExprView>
        decreases self.left(), 0nat,
    {
        if self.at_sum_op() {
            let next = self.taken().factor();
            match next.result {
                Err(e) => next,
                Ok(right) => self.past(next.state).sum_rest(
                    ExprView::Binary {
                        left: Box::new(left),
                        op: self.peek()->0,
                        right: Box::new(right),
                    },
                ),
            }
        } else {
            self.ok(left)
        }
    }

    /// factor ::= cast (('*'|'/'|'%') cast)*
    #[verifier::opaque]
    pub open spec fn factor(self) -> Parsed<ExprView>
        decreases self.left(), 10nat,
    {
        let first = self.cast();
        match first.result {
            Err(e) => first,
            Ok(left) => self.past(first.state).factor_rest(left),
        }
    }

    /// The operators and operands that follow the left operand.
    #[verifier::opaque]
    pub open spec fn factor_rest(self, left: ExprView) -> Parsed<ExprView>
        decreases self.left(), 0nat,
    {
        if self.at(TokenKind::Star) || self.at(TokenKind::Slash) || self.at(TokenKind::Percent) {
            let next = self.taken().cast();
            match next.result {
                Err(e) => next,
                Ok(right) => self.past(next.state).factor_rest(
                    ExprView::Binary {
                        left: Box::new(left),
                        op: self.peek()->0,
                        right: Box::new(right),
                    },
                ),
            }
        } else {
            self.ok(left)
        }
    }

    /// expr_list ::= (expr (',' expr)* ','?)?
    /// The list ends where no item follows. `items` have been read.
    #[verifier::opaque]
    pub open spec fn expr_list(self, items: Seq<ExprView>) -> Parsed<Seq<ExprView>>
        decreases self.left(), 24nat,
    {
        let item = self.logical();
        match item.result {
            Err(_) => self.ok(items),
            Ok(value) => {
                let next = self.past(item.state);
                if next.at(TokenKind::Comma) {
                    next.taken().expr_list(items.push(value))
                } else {
                    next.ok(items.push(value))
                }
            },
        }
    }

    /// arg_list ::= (arg (',' arg)* ','?)?
    /// The list ends where no item follows. `items` have been read.
    #[verifier::opaque]
    pub open spec fn arg_list(self, items: Seq<ArgView>) -> Parsed<Seq<ArgView>>
        decreases self.left(), 26nat,
    {
        let item = self.arg();
        match item.result {
            Err(_) => self.ok(items),
            Ok(value) => {
                let next = self.past(item.state);
                if next.at(TokenKind::Comma) {
                    next.taken().arg_list(items.push(value))
                } else {
                    next.ok(items.push(value))
                }
            },
        }
    }

    /// type_list ::= (type (',' type)* ','?)?
    /// The list ends where no item follows. `items` have been read.
    #[verifier::opaque]
    pub open spec fn type_list(self, items: Seq<TypeView>) -> Parsed<Seq<TypeView>>
        decreases self.left(), 4nat,
    {
        let item = self.taipe();
        match item.result {
            Err(_) => self.ok(items),
            Ok(value) => {
                let next = self.past(item.state);
                if next.at(TokenKind::Comma) {
                    next.taken().type_list(items.push(value))
                } else {
                    next.ok(items.push(value))
                }
            },
        }
    }

    /// field_list ::= (field (',' field)* ','?)?
    /// The list ends where no item follows. `items` have been read.
    #[verifier::opaque]
    pub open spec fn field_list(self, items: Seq<FieldView>) -> Parsed<Seq<FieldView>>
        decreases self.left(), 8nat,
    {
        let item = self.field();
        match item.result {
            Err(_) => self.ok(items),
            Ok(value) => {
                let next = self.past(item.state);
                if next.at(TokenKind::Comma) {
                    next.taken().field_list(items.push(value))
                } else {
                    next.ok(items.push(value))
                }
            },
        }
    }

    /// param_list ::= (param (',' param)* ','?)?
    /// The list ends where no item follows. `items` have been read.
    #[verifier::opaque]
    pub open spec fn param_list(self, items: Seq<ParamView>) -> Parsed<Seq<ParamView>>
        decreases self.left(), 8nat,
    {
        let item = self.param();
        match item.result {
            Err(_) => self.ok(items),
            Ok(value) => {
                let next = self.past(item.state);
                if next.at(TokenKind::Comma) {
                    next.taken().param_list(items.push(value))
                } else {
                    next.ok(items.push(value))
                }
            },
        }
    }

    /// logic_not ::= 'not'* relational
    #[verifier::opaque]
    pub open spec fn logic_not(self) -> Parsed<ExprView>
        decreases self.left(), 20nat,
    {
        if self.at(TokenKind::Not) {
            let inner = self.taken().logic_not();
            match inner.result {
                Err(e) => inner,
                Ok(expr) => inner.state.ok(
                    ExprView::Unary { op: self.peek()->0, expr: Box::new(expr) },
                ),
            }
        } else {
            self.relational()
        }
    }

    /// cast ::= unary ('as' type)*
    #[verifier::opaque]
    pub open spec fn cast(self) -> Parsed<ExprView>
        decreases self.left(), 8nat,
    {
        let first = self.unary();
        match first.result {
            Err(e) => first,
            Ok(expr) => self.past(first.state).cast_rest(expr),
        }
    }

    /// The types to which an expression is cast.
    #[verifier::opaque]
    pub open spec fn cast_rest(self, expr: ExprView) -> Parsed<ExprView>
        decreases self.left(), 0nat,
    {
        if self.at(TokenKind::As) {
            let next = self.taken().taipe();
            match next.result {
                Err(e) => next.state.fail(e),
                Ok(taipe) => self.past(next.state).cast_rest(
                    ExprView::Cast { expr: Box::new(expr), taipe: Box::new(taipe) },
                ),
            }
        } else {
            self.ok(expr)
        }
    }

    /// Whether an operator comes next that asks for what is known of an operand.
    pub open spec fn at_measure(self) -> bool {
        self.at(TokenKind::Sizeof) || self.at(TokenKind::Typeof) || self.at(TokenKind::Alignof)
    }

    /// unary ::= ('sizeof'|'typeof'|'alignof')? prefixed
    #[verifier::opaque]
    pub open spec fn unary(self) -> Parsed<ExprView>
        decreases self.left(), 7nat,
    {
        if self.at_measure() {
            let inner = self.taken().prefixed();
            match inner.result {
                Err(e) => inner,
                Ok(expr) => inner.state.ok(
                    ExprView::Unary { op: self.peek()->0, expr: Box::new(expr) },
                ),
            }
        } else {
            self.prefixed()
        }
    }

    /// Whether an operator comes next that stands before an operand any number of times.
    pub open spec fn at_prefix(self) -> bool {
        ||| self.at(TokenKind::Minus)
        ||| self.at(TokenKind::Tilde)
        ||| self.at(TokenKind::Star)
        ||| self.at(TokenKind::Ampersand)
    }

    /// prefixed ::= ('-'|'~'|'*'|'&')* postfix
    #[verifier::opaque]
    pub open spec fn prefixed(self) -> Parsed<ExprView>
        decreases self.left(), 6nat,
    {
        if self.at_prefix() {
            let inner = self.taken().prefixed();
            match inner.result {
                Err(e) => inner,
                Ok(expr) => inner.state.ok(
                    ExprView::Unary { op: self.peek()->0, expr: Box::new(expr) },
                ),
            }
        } else {
            self.postfix()
        }
    }

    /// arg ::= (identifier ':')? expr
    #[verifier::opaque]
    pub open spec fn arg(self) -> Parsed<ArgView>
        decreases self.left(), 24nat,
    {
        if self.at(TokenKind::Ident) && self.peek_at(1) is Some && self.peek_at(1)->0.kind
            == TokenKind::Colon {
            let inner = self.taken().taken().logical();
            match inner.result {
                Err(e) => inner.state.fail(e),
                Ok(expr) => inner.state.ok(ArgView { name: self.peek(), expr }),
            }
        } else {
            let inner = self.logical();
            match inner.result {
                Err(e) => inner.state.fail(e),
                Ok(expr) => inner.state.ok(ArgView { name: None, expr }),
            }
        }
    }

    /// postfix ::= primary ('.' (identifier | integer) | '(' arg_list ')' | '[' expr_list ']')*
    #[verifier::opaque]
    pub open spec fn postfix(self) -> Parsed<ExprView>
        decreases self.left(), 4nat,
    {
        let first = self.primary();
        match first.result {
            Err(e) => first,
            Ok(expr) => self.past(first.state).postfix_rest(expr),
        }
    }

    /// The members, calls and indices that follow an expression.
    #[verifier::opaque]
    pub open spec fn postfix_rest(self, expr: ExprView) -> Parsed<ExprView>
        decreases self.left(), 0nat,
    {
        if self.at(TokenKind::Dot) {
            let next = self.taken();
            if next.at(TokenKind::Ident) || next.at(TokenKind::IntLit) {
                next.taken().postfix_rest(
                    ExprView::Member { expr: Box::new(expr), name: next.peek()->0 },
                )
            } else {
                next.fail(next.expected_kinds(seq![TokenKind::Ident, TokenKind::IntLit]))
            }
        } else if self.at(TokenKind::LParen) {
            let args = self.taken().arg_list(seq![]);
            let end = self.past(args.state).expected(TokenKind::RParen);
            self.past(end.state).postfix_rest(
                ExprView::Call {
                    line_info: span_from(expr.span(), end.result->Ok_0.line_info),
                    expr: Box::new(expr),
                    args: args.result->Ok_0,
                },
            )
        } else if self.at(TokenKind::LBrack) {
            let items = self.taken().expr_list(seq![]);
            let end = self.past(items.state).expected(TokenKind::RBrack);
            self.past(end.state).postfix_rest(
                ExprView::Index {
                    line_info: span_from(expr.span(), end.result->Ok_0.line_info),
                    expr: Box::new(expr),
                    items: items.result->Ok_0,
                },
            )
        } else {
            self.ok(expr)
        }
    }

    /// primary ::= 'true' | 'false' | string | integer | float | identifier
    ///           | '(' expr ')' | tuple | '[' expr_list ']'
    #[verifier::opaque]
    pub open spec fn primary(self) -> Parsed<ExprView>
        decreases self.left(), 2nat,
    {
        if self.at(TokenKind::True) || self.at(TokenKind::False) || self.at(TokenKind::StringLit)
            || self.at(TokenKind::IntLit) || self.at(TokenKind::FloatLit) || self.at(
            TokenKind::Ident,
        ) {
            self.taken().ok(ExprView::Literal(self.peek()->0))
        } else if self.at(TokenKind::LParen) {
            if self.peek_at(1) is Some && self.peek_at(1)->0.kind == TokenKind::RParen {
                self.tuple()
            } else {
                let inner = self.taken().logical();
                match inner.result {
                    Err(e) => inner,
                    Ok(expr) => if inner.state.at(TokenKind::Comma) {
                        ParseState { errors: inner.state.errors, ..self }.tuple()
                    } else {
                        let end = inner.state.expected(TokenKind::RParen);
                        end.state.ok(
                            ExprView::Paren {
                                line_info: span_from(
                                    self.peek()->0.line_info,
                                    end.result->Ok_0.line_info,
                                ),
                                expr: Box::new(expr),
                            },
                        )
                    },
                }
            }
        } else if self.at(TokenKind::LBrack) {
            let items = self.taken().expr_list(seq![]);
            let end = items.state.expected(TokenKind::RBrack);
            end.state.ok(
                ExprView::ArrayLit {
                    line_info: span_from(self.peek()->0.line_info, end.result->Ok_0.line_info),
                    items: items.result->Ok_0,
                },
            )
        } else {
            self.fail(self.expected_kinds(primary_kinds()))
        }
    }

    /// tuple ::= '(' expr_list ')'
    #[verifier::opaque]
    pub open spec fn tuple(self) -> Parsed<ExprView>
        decreases self.left(), 0nat,
    {
        let start = self.expected(TokenKind::LParen);
        match start.result {
            Err(e) => start.state.fail(e),
            Ok(open) => {
                let exprs = start.state.expr_list(seq![]);
                let end = exprs.state.expected(TokenKind::RParen);
                end.state.ok(
                    ExprView::Tuple {
                        line_info: span_from(open.line_info, end.result->Ok_0.line_info),
                        exprs: exprs.result->Ok_0,
                    },
                )
            },
        }
    }

    /// type_tuple ::= '(' type_list ')'
    #[verifier::opaque]
    pub open spec fn type_tuple(self) -> Parsed<TypeView>
        decreases self.left(), 0nat,
    {
        let start = self.expected(TokenKind::LParen);
        match start.result {
            Err(e) => start.state.fail(e),
            Ok(open) => {
                let types = start.state.type_list(seq![]);
                let end = types.state.expected(TokenKind::RParen);
                end.state.ok(
                    TypeView::Tuple {
                        line_info: span_from(open.line_info, end.result->Ok_0.line_info),
                        types: types.result->Ok_0,
                    },
                )
            },
        }
    }

    /// The names that follow in a path.
    #[verifier::opaque]
    pub open spec fn path_rest(self, items: Seq<TokenView>) -> Parsed<Seq<TokenView>>
        decreases self.left(), 0nat,
    {
        if self.at(TokenKind::Dot) {
            let name = self.taken().expected(TokenKind::Ident);
            match name.result {
                Err(e) => name.state.fail(e),
                Ok(tok) => self.past(name.state).path_rest(items.push(tok)),
            }
        } else {
            self.ok(items)
        }
    }

    /// type ::= identifier ('.' identifier)*
    ///        | 'fun' '(' type_list ')' '->' type
    ///        | 'const' type
    ///        | '*' type
    ///        | '[' ('_' | expr) ']' type
    ///        | '[' ']' type
    ///        | '(' type ')'
    ///        | type_tuple
    ///        | 'void' | 'noreturn' | 'typedef'
    #[verifier::opaque]
    pub open spec fn taipe(self) -> Parsed<TypeView>
        decreases self.left(), 2nat,
    {
        if self.at(TokenKind::Ident) {
            let path = self.taken().path_rest(seq![self.peek()->0]);
            match path.result {
                Err(e) => path.state.fail(e),
                Ok(items) => path.state.ok(TypeView::Path { items }),
            }
        } else if self.at(TokenKind::Fun) {
            self.function_type()
        } else if self.at(TokenKind::Const) {
            if self.taken().at(TokenKind::Const) {
                self.taken().fail(
                    self.error_at(
                        self.taken().peek()->0.line_info,
                        "duplicate 'const' is not allowed"@,
                    ),
                )
            } else {
                let inner = self.taken().taipe();
                match inner.result {
                    Err(e) => inner,
                    Ok(taipe) => inner.state.ok(
                        TypeView::Const { token: self.peek()->0, taipe: Box::new(taipe) },
                    ),
                }
            }
        } else if self.at(TokenKind::Star) {
            let inner = self.taken().taipe();
            match inner.result {
                Err(e) => inner,
                Ok(taipe) => inner.state.ok(
                    TypeView::Pointer { token: self.peek()->0, taipe: Box::new(taipe) },
                ),
            }
        } else if self.at(TokenKind::LBrack) {
            self.bracket_type()
        } else if self.at(TokenKind::LParen) {
            if self.peek_at(1) is Some && self.peek_at(1)->0.kind == TokenKind::RParen {
                self.type_tuple()
            } else {
                let inner = self.taken().taipe();
                match inner.result {
                    Err(e) => inner,
                    Ok(taipe) => if inner.state.at(TokenKind::Comma) {
                        ParseState { errors: inner.state.errors, ..self }.type_tuple()
                    } else {
                        let end = inner.state.expected(TokenKind::RParen);
                        end.state.ok(
                            TypeView::Paren {
                                line_info: span_from(
                                    self.peek()->0.line_info,
                                    end.result->Ok_0.line_info,
                                ),
                                taipe: Box::new(taipe),
                            },
                        )
                    },
                }
            }
        } else if self.at(TokenKind::Void) || self.at(TokenKind::Noreturn) || self.at(
            TokenKind::Typedef,
        ) {
            self.taken().ok(TypeView::Literal(self.peek()->0))
        } else {
            self.fail(self.expected_kinds(type_kinds()))
        }
    }

    /// 'fun' '(' type_list ')' '->' type
    #[verifier::opaque]
    pub open spec fn function_type(self) -> Parsed<TypeView>
        decreases self.left(), 0nat,
    {
        let start = self.expected(TokenKind::Fun);
        match start.result {
            Err(e) => start.state.fail(e),
            Ok(fun) => {
                let open = start.state.expected(TokenKind::LParen);
                match open.result {
                    Err(e) => open.state.fail(e),
                    Ok(_) => {
                        let params = open.state.type_list(seq![]);
                        let close = params.state.expected(TokenKind::RParen);
                        let arrow = close.state.expected(TokenKind::Arrow);
                        match arrow.result {
                            Err(e) => arrow.state.fail(e),
                            Ok(_) => {
                                let ret = self.past(arrow.state).taipe();
                                match ret.result {
                                    Err(e) => ret,
                                    Ok(taipe) => ret.state.ok(
                                        TypeView::Function {
                                            line_info: span_from(fun.line_info, taipe.span()),
                                            params: params.result->Ok_0,
                                            ret: Box::new(taipe),
                                        },
                                    ),
                                }
                            },
                        }
                    },
                }
            },
        }
    }

    /// '[' ('_' | expr)? ']' type
    #[verifier::opaque]
    pub open spec fn bracket_type(self) -> Parsed<TypeView>
        decreases self.left(), 0nat,
    {
        let start = self.expected(TokenKind::LBrack);
        match start.result {
            Err(e) => start.state.fail(e),
            Ok(open) => if start.state.at(TokenKind::RBrack) {
                let inner = start.state.taken().taipe();
                match inner.result {
                    Err(e) => inner,
                    Ok(taipe) => inner.state.ok(
                        TypeView::Fat {
                            line_info: span_from(
                                open.line_info,
                                inner.state.cur()->0.line_info,
                            ),
                            taipe: Box::new(taipe),
                        },
                    ),
                }
            } else if start.state.at(TokenKind::Underscore) {
                start.state.taken().array_type_rest(open, None)
            } else {
                let length = start.state.logical();
                match length.result {
                    Err(e) => length.state.fail(e),
                    Ok(expr) => self.past(length.state).array_type_rest(open, Some(expr)),
                }
            },
        }
    }

    /// ']' type
    #[verifier::opaque]
    pub open spec fn array_type_rest(
        self,
        open: TokenView,
        expr: Option<ExprView>,
    ) -> Parsed<TypeView>
        decreases self.left(), 4nat,
    {
        let close = self.expected(TokenKind::RBrack);
        let inner = close.state.taipe();
        match inner.result {
            Err(e) => inner,
            Ok(taipe) => inner.state.ok(
                TypeView::Array {
                    line_info: span_from(open.line_info, inner.state.cur()->0.line_info),
                    taipe: Box::new(taipe),
                    expr,
                },
            ),
        }
    }

    /// assignment ::= expr_list '=' expr_list, with at least one expression on each side
    #[verifier::opaque]
    pub open spec fn assignment(self) -> Parsed<ExprView>
        decreases self.left(), 26nat,
    {
        let lhs = self.expr_list(seq![]);
        let lhses = lhs.result->Ok_0;
        if lhses.len() == 0 {
            lhs.state.fail(lhs.state.error_peek("expected left hand size of an assignment"@))
        } else {
            let eq = self.past(lhs.state).expected(TokenKind::Equal);
            match eq.result {
                Err(e) => eq.state.fail(e),
                Ok(op) => {
                    let rhs = eq.state.expr_list(seq![]);
                    let rhses = rhs.result->Ok_0;
                    if rhses.len() == 0 {
                        rhs.state.fail(
                            rhs.state.error_peek("expected right hand size of an assignment"@),
                        )
                    } else {
                        rhs.state.ok(ExprView::Assign { lhses, op, rhses })
                    }
                },
            }
        }
    }

    /// expr_or_assign ::= assignment | expr
    #[verifier::opaque]
    pub open spec fn expr_or_assign(self) -> Parsed<ExprView>
        decreases self.left(), 28nat,
    {
        let assignment = self.assignment();
        if assignment.result is Ok {
            assignment
        } else {
            self.logical()
        }
    }

    /// field ::= (identifier | '_') ':' type ((':'|'=') expr)?
    ///         | ('struct' | 'union') '{' field_list '}'
    #[verifier::opaque]
    pub open spec fn field(self) -> Parsed<FieldView>
        decreases self.left(), 6nat,
    {
        if self.at(TokenKind::Ident) || self.at(TokenKind::Underscore) {
            let colon = self.taken().expected(TokenKind::Colon);
            match colon.result {
                Err(e) => colon.state.fail(e),
                Ok(_) => {
                    let read = colon.state.taipe();
                    match read.result {
                        Err(e) => read.state.fail(e),
                        Ok(taipe) => {
                            let next = self.past(read.state);
                            if next.at(TokenKind::Equal) || next.at(TokenKind::Colon) {
                                let value = next.taken().logical();
                                match value.result {
                                    Err(e) => value.state.fail(e),
                                    Ok(expr) => value.state.ok(
                                        FieldView::Decl {
                                            name: self.peek()->0,
                                            taipe,
                                            eq_token: next.peek(),
                                            expr: Some(expr),
                                        },
                                    ),
                                }
                            } else {
                                next.ok(
                                    FieldView::Decl {
                                        name: self.peek()->0,
                                        taipe,
                                        eq_token: None,
                                        expr: None,
                                    },
                                )
                            }
                        },
                    }
                },
            }
        } else if self.at(TokenKind::Struct) || self.at(TokenKind::Union) {
            self.taken().compound_rest(self.peek()->0)
        } else {
            self.fail(
                self.expected_kinds(
                    seq![
                        TokenKind::Ident,
                        TokenKind::Underscore,
                        TokenKind::Struct,
                        TokenKind::Union,
                    ],
                ),
            )
        }
    }

    /// '{' field_list '}' after `token`, which is 'struct' or 'union'
    #[verifier::opaque]
    pub open spec fn compound_rest(self, token: TokenView) -> Parsed<FieldView>
        decreases self.left(), 0nat,
    {
        let open = self.expected(TokenKind::LBrace);
        match open.result {
            Err(e) => open.state.fail(e),
            Ok(_) => {
                let fields = open.state.field_list(seq![]);
                let end = fields.state.expected(TokenKind::RBrace);
                end.state.ok(
                    FieldView::Compound {
                        line_info: span_from(token.line_info, end.result->Ok_0.line_info),
                        token,
                        fields: fields.result->Ok_0,
                    },
                )
            },
        }
    }

    /// param ::= identifier ':' type ((':'|'=') expr)?
    #[verifier::opaque]
    pub open spec fn param(self) -> Parsed<ParamView>
        decreases self.left(), 6nat,
    {
        let first = self.expected(TokenKind::Ident);
        match first.result {
            Err(e) => first.state.fail(e),
            Ok(name) => {
                let colon = first.state.expected(TokenKind::Colon);
                match colon.result {
                    Err(e) => colon.state.fail(e),
                    Ok(_) => {
                        let read = colon.state.taipe();
                        match read.result {
                            Err(e) => read.state.fail(e),
                            Ok(taipe) => {
                                let next = self.past(read.state);
                                if next.at(TokenKind::Colon) || next.at(TokenKind::Equal) {
                                    let value = next.taken().logical();
                                    match value.result {
                                        Err(e) => value.state.fail(e),
                                        Ok(expr) => value.state.ok(
                                            ParamView {
                                                name,
                                                taipe,
                                                eq_token: next.peek(),
                                                expr: Some(expr),
                                            },
                                        ),
                                    }
                                } else {
                                    next.ok(
                                        ParamView { name, taipe, eq_token: None, expr: None },
                                    )
                                }
                            },
                        }
                    },
                }
            },
        }
    }

    /// block ::= '{' (decl | stmt)* '}'
    #[verifier::opaque]
    pub open spec fn block(self) -> Parsed<StmtView>
        decreases self.left(), 30nat,
    {
        let start = self.expected(TokenKind::LBrace);
        match start.result {
            Err(e) => start.state.fail(e),
            Ok(open) => {
                let body = start.state.block_rest(seq![]);
                match body.result {
                    Err(e) => body.state.fail(e),
                    Ok(stmts) => {
                        let end = body.state.expected(TokenKind::RBrace);
                        end.state.ok(
                            StmtView::Block {
                                line_info: span_from(open.line_info, end.result->Ok_0.line_info),
                                stmts,
                            },
                        )
                    },
                }
            },
        }
    }

    /// The declarations and statements up to the end of a block, after `stmts`.
    #[verifier::opaque]
    pub open spec fn block_rest(self, stmts: Seq<StmtView>) -> Parsed<Seq<StmtView>>
        decreases self.left(), 50nat,
    {
        if self.peek() is None || self.at(TokenKind::RBrace) {
            self.ok(stmts)
        } else {
            let item = self.decl_or_stmt();
            match item.result {
                Err(e) => item.state.fail(e),
                Ok(stmt) => self.past(item.state).block_rest(stmts.push(stmt)),
            }
        }
    }

    /// A declaration, or a statement where no declaration can be read.
    #[verifier::opaque]
    pub open spec fn decl_or_stmt(self) -> Parsed<StmtView>
        decreases self.left(), 48nat,
    {
        let decl = self.decl();
        match decl.result {
            Ok(d) => decl.state.ok(StmtView::Decl(Box::new(d))),
            Err(_) => self.stmt(),
        }
    }

    /// The label of a jump, if one follows.
    pub open spec fn label(self) -> (ParseState, Option<TokenView>) {
        if self.at(TokenKind::Label) {
            (self.taken(), self.peek())
        } else {
            (self, None)
        }
    }

    /// stmt ::= if_stmt | while_stmt | block
    ///        | 'yield' expr ';'
    ///        | 'continue' label? ';'
    ///        | 'break' label? ';'
    ///        | 'return' expr? ';'
    ///        | expr_or_assign ';'
    ///        | ';'
    #[verifier::opaque]
    pub open spec fn stmt(self) -> Parsed<StmtView>
        decreases self.left(), 40nat,
    {
        if self.at(TokenKind::If) {
            self.if_stmt()
        } else if self.at(TokenKind::Label) {
            if self.taken().at(TokenKind::While) {
                self.while_stmt()
            } else if self.taken().at(TokenKind::LBrace) {
                self.block()
            } else {
                self.fail(self.expected_kinds(seq![TokenKind::While, TokenKind::LBrace]))
            }
        } else if self.at(TokenKind::While) {
            self.while_stmt()
        } else if self.at(TokenKind::LBrace) {
            self.block()
        } else if self.at(TokenKind::Yield) {
            let read = self.taken().logical();
            match read.result {
                Err(e) => read.state.fail(e),
                Ok(expr) => {
                    let end = read.state.expected(TokenKind::Semicolon);
                    end.state.ok(StmtView::Yield { token: self.peek()->0, expr })
                },
            }
        } else if self.at(TokenKind::Continue) {
            let (next, label) = self.taken().label();
            let end = next.expected(TokenKind::Semicolon);
            end.state.ok(StmtView::Continue { token: self.peek()->0, label })
        } else if self.at(TokenKind::Break) {
            let (next, label) = self.taken().label();
            let end = next.expected(TokenKind::Semicolon);
            end.state.ok(StmtView::Break { token: self.peek()->0, label })
        } else if self.at(TokenKind::Return) {
            let read = self.taken().logical();
            match read.result {
                Err(_) => {
                    let end = self.taken().expected(TokenKind::Semicolon);
                    end.state.ok(StmtView::Return { token: self.peek()->0, expr: None })
                },
                Ok(expr) => {
                    let end = read.state.expected(TokenKind::Semicolon);
                    end.state.ok(StmtView::Return { token: self.peek()->0, expr: Some(expr) })
                },
            }
        } else if self.at(TokenKind::Semicolon) {
            self.taken().ok(StmtView::Nop(self.peek()->0))
        } else if self.peek() is Some && begins_expr(self.peek()->0.kind) {
            let read = self.expr_or_assign();
            match read.result {
                Err(e) => read.state.fail(e),
                Ok(expr) => {
                    let end = read.state.expected(TokenKind::Semicolon);
                    end.state.ok(StmtView::Expr(Box::new(expr)))
                },
            }
        } else {
            self.fail(self.expected_one_of(seq!["<expression>"@], stmt_kinds()))
        }
    }

    /// if_stmt ::= 'if' expr block ('else' block)?
    #[verifier::opaque]
    pub open spec fn if_stmt(self) -> Parsed<StmtView>
        decreases self.left(), 32nat,
    {
        let start = self.expected(TokenKind::If);
        match start.result {
            Err(e) => start.state.fail(e),
            Ok(token) => {
                let cond = start.state.logical();
                match cond.result {
                    Err(e) => cond.state.fail(e),
                    Ok(expr) => {
                        let body = self.past(cond.state).block();
                        match body.result {
                            Err(e) => body,
                            Ok(then_body) => {
                                let next = self.past(body.state);
                                if next.at(TokenKind::Else) {
                                    let other = next.taken().block();
                                    match other.result {
                                        Err(e) => other,
                                        Ok(else_body) => other.state.ok(
                                            StmtView::If {
                                                line_info: span_from(
                                                    token.line_info,
                                                    other.state.cur()->0.line_info,
                                                ),
                                                expr,
                                                then_body: Box::new(then_body),
                                                else_body: Some(Box::new(else_body)),
                                            },
                                        ),
                                    }
                                } else {
                                    next.ok(
                                        StmtView::If {
                                            line_info: span_from(
                                                token.line_info,
                                                next.cur()->0.line_info,
                                            ),
                                            expr,
                                            then_body: Box::new(then_body),
                                            else_body: None,
                                        },
                                    )
                                }
                            },
                        }
                    },
                }
            },
        }
    }

    /// while_stmt ::= label? 'while' expr block
    #[verifier::opaque]
    pub open spec fn while_stmt(self) -> Parsed<StmtView>
        decreases self.left(), 32nat,
    {
        let (first, label) = self.label();
        let start = first.expected(TokenKind::While);
        match start.result {
            Err(e) => start.state.fail(e),
            Ok(token) => {
                let cond = start.state.logical();
                match cond.result {
                    Err(e) => cond.state.fail(e),
                    Ok(expr) => {
                        let body = self.past(cond.state).block();
                        match body.result {
                            Err(e) => body,
                            Ok(then_body) => body.state.ok(
                                StmtView::While {
                                    line_info: span_from(
                                        match label {
                                            Some(l) => l.line_info,
                                            None => token.line_info,
                                        },
                                        body.state.cur()->0.line_info,
                                    ),
                                    label,
                                    expr,
                                    then_body: Box::new(then_body),
                                },
                            ),
                        }
                    },
                }
            },
        }
    }

    /// fun ::= 'fun' '(' param_list ')' ('->' type)? (';' | block)
    #[verifier::opaque]
    pub open spec fn fun(self) -> Parsed<ObjectView>
        decreases self.left(), 28nat,
    {
        let start = self.expected(TokenKind::Fun);
        match start.result {
            Err(e) => start.state.fail(e),
            Ok(token) => {
                let open = start.state.expected(TokenKind::LParen);
                match open.result {
                    Err(e) => open.state.fail(e),
                    Ok(_) => {
                        let params = open.state.param_list(seq![]);
                        let close = self.past(params.state).expected(TokenKind::RParen);
                        let next = self.past(close.state);
                        if next.at(TokenKind::Arrow) {
                            let read = next.taken().taipe();
                            match read.result {
                                Err(e) => read.state.fail(e),
                                Ok(ret) => self.past(read.state).fun_body(
                                    token,
                                    params.result->Ok_0,
                                    Some(ret),
                                ),
                            }
                        } else {
                            next.fun_body(token, params.result->Ok_0, None)
                        }
                    },
                }
            },
        }
    }

    /// ';' | block
    #[verifier::opaque]
    pub open spec fn fun_body(
        self,
        token: TokenView,
        params: Seq<ParamView>,
        ret: Option<TypeView>,
    ) -> Parsed<ObjectView>
        decreases self.left(), 32nat,
    {
        if self.at(TokenKind::LBrace) {
            let read = self.block();
            match read.result {
                Err(e) => read.state.fail(e),
                Ok(body) => read.state.ok(
                    ObjectView::Fun {
                        line_info: span_from(token.line_info, read.state.cur()->0.line_info),
                        params,
                        ret,
                        body: Some(body),
                    },
                ),
            }
        } else if self.at(TokenKind::Semicolon) {
            self.taken().ok(
                ObjectView::Fun {
                    line_info: span_from(token.line_info, self.peek()->0.line_info),
                    params,
                    ret,
                    body: None,
                },
            )
        } else if ret is Some {
            self.fail(self.expected_kinds(seq![TokenKind::LBrace, TokenKind::Semicolon]))
        } else {
            self.fail(
                self.expected_kinds(
                    seq![TokenKind::Arrow, TokenKind::LBrace, TokenKind::Semicolon],
                ),
            )
        }
    }

    /// module ::= 'module' (string ';' | '{' decls '}')
    #[verifier::opaque]
    pub open spec fn module(self) -> Parsed<ObjectView>
        decreases self.left(), 28nat,
    {
        let start = self.expected(TokenKind::Module);
        match start.result {
            Err(e) => start.state.fail(e),
            Ok(token) => {
                let next = start.state;
                if next.at(TokenKind::StringLit) {
                    let end = next.taken().expected(TokenKind::Semicolon);
                    end.state.ok(
                        ObjectView::ExternModule {
                            line_info: span_from(token.line_info, next.peek()->0.line_info),
                            value: next.peek()->0,
                        },
                    )
                } else if next.at(TokenKind::LBrace) {
                    let body = next.taken().decls(seq![]);
                    match body.result {
                        Err(e) => body.state.fail(e),
                        Ok(decls) => {
                            let end = body.state.expected(TokenKind::RBrace);
                            end.state.ok(
                                ObjectView::Module {
                                    line_info: span_from(
                                        token.line_info,
                                        end.result->Ok_0.line_info,
                                    ),
                                    decls,
                                },
                            )
                        },
                    }
                } else {
                    next.fail(
                        next.expected_kinds(seq![TokenKind::StringLit, TokenKind::LBrace]),
                    )
                }
            },
        }
    }

    /// struct ::= 'struct' '{' field_list '}', and union ::= 'union' '{' field_list '}'
    #[verifier::opaque]
    pub open spec fn compound(self, kind: TokenKind) -> Parsed<ObjectView>
        decreases self.left(), 28nat,
    {
        let start = self.expected(kind);
        match start.result {
            Err(e) => start.state.fail(e),
            Ok(token) => {
                let read = start.state.compound_rest(token);
                match read.result {
                    Err(e) => read.state.fail(e),
                    Ok(field) => read.state.ok(
                        ObjectView::Compound { line_info: field.span(), field },
                    ),
                }
            },
        }
    }

    /// object ::= module | struct | union | fun | 'typedef' type ';' | expr ';'
    #[verifier::opaque]
    pub open spec fn object(self) -> Parsed<ObjectView>
        decreases self.left(), 30nat,
    {
        if self.at(TokenKind::Module) {
            self.module()
        } else if self.at(TokenKind::Struct) {
            self.compound(TokenKind::Struct)
        } else if self.at(TokenKind::Union) {
            self.compound(TokenKind::Union)
        } else if self.at(TokenKind::Fun) {
            self.fun()
        } else if self.at(TokenKind::Typedef) {
            let read = self.taken().taipe();
            match read.result {
                Err(e) => read.state.fail(e),
                Ok(taipe) => {
                    let end = read.state.expected(TokenKind::Semicolon);
                    end.state.ok(ObjectView::Typedef(taipe))
                },
            }
        } else if self.peek() is Some && begins_expr(self.peek()->0.kind) {
            let read = self.logical();
            match read.result {
                Err(e) => read.state.fail(e),
                Ok(expr) => {
                    let end = read.state.expected(TokenKind::Semicolon);
                    end.state.ok(ObjectView::Expr(expr))
                },
            }
        } else {
            self.fail(self.expected_one_of(seq!["<expression>"@], object_kinds()))
        }
    }

    /// The object after '=' or ':' in a declaration.
    #[verifier::opaque]
    pub open spec fn decl_value(
        self,
        name: TokenView,
        taipe: Option<TypeView>,
    ) -> Parsed<DeclView>
        decreases self.left(), 32nat,
    {
        let read = self.taken().object();
        match read.result {
            Err(e) => read.state.fail(e),
            Ok(object) => read.state.ok(
                DeclView::Decl { name, taipe, eq_token: self.peek(), object: Some(object) },
            ),
        }
    }

    /// The names that follow in a 'using' declaration; '*' ends it.
    #[verifier::opaque]
    pub open spec fn using_rest(self, items: Seq<TokenView>) -> Parsed<Seq<TokenView>>
        decreases self.left(), 0nat,
    {
        if self.at(TokenKind::Dot) {
            let next = self.taken();
            if next.at(TokenKind::Ident) {
                next.taken().using_rest(items.push(next.peek()->0))
            } else if next.at(TokenKind::Star) {
                next.taken().ok(items.push(next.peek()->0))
            } else {
                next.fail(next.expected_kinds(seq![TokenKind::Ident, TokenKind::Star]))
            }
        } else {
            self.ok(items)
        }
    }

    /// decl ::= (identifier | '_') ':' type (';' | ((':'|'=') object))
    ///        | (identifier | '_') ':' ((':'|'=') object)
    ///        | 'using' identifier ('.' identifier)* ('.' '*')? ';'
    #[verifier::opaque]
    pub open spec fn decl(self) -> Parsed<DeclView>
        decreases self.left(), 42nat,
    {
        if self.at(TokenKind::Ident) || self.at(TokenKind::Underscore) {
            let name = self.peek()->0;
            let colon = self.taken().expected(TokenKind::Colon);
            match colon.result {
                Err(e) => colon.state.fail(e),
                Ok(_) => {
                    let read = colon.state.taipe();
                    match read.result {
                        Ok(taipe) => {
                            let next = self.past(read.state);
                            if next.at(TokenKind::Equal) || next.at(TokenKind::Colon) {
                                next.decl_value(name, Some(taipe))
                            } else {
                                let end = next.expected(TokenKind::Semicolon);
                                end.state.ok(
                                    DeclView::Decl {
                                        name,
                                        taipe: Some(taipe),
                                        eq_token: None,
                                        object: None,
                                    },
                                )
                            }
                        },
                        Err(_) => if colon.state.at(TokenKind::Equal) || colon.state.at(
                            TokenKind::Colon,
                        ) {
                            colon.state.decl_value(name, None)
                        } else {
                            colon.state.fail(
                                colon.state.expected_one_of(
                                    seq!["<type>"@],
                                    seq![TokenKind::Equal, TokenKind::Colon],
                                ),
                            )
                        },
                    }
                },
            }
        } else if self.at(TokenKind::Using) {
            let first = self.taken().expected(TokenKind::Ident);
            match first.result {
                Err(e) => first.state.fail(e),
                Ok(tok) => {
                    let rest = first.state.using_rest(seq![tok]);
                    match rest.result {
                        Err(e) => rest.state.fail(e),
                        Ok(items) => {
                            let end = rest.state.expected(TokenKind::Semicolon);
                            end.state.ok(
                                DeclView::Using {
                                    line_info: span_from(
                                        self.peek()->0.line_info,
                                        end.result->Ok_0.line_info,
                                    ),
                                    items,
                                },
                            )
                        },
                    }
                },
            }
        } else {
            self.fail(
                self.expected_kinds(
                    seq![TokenKind::Ident, TokenKind::Underscore, TokenKind::Using],
                ),
            )
        }
    }

    /// Whether a declaration begins here.
    pub open spec fn at_decl(self) -> bool {
        self.at(TokenKind::Ident) || self.at(TokenKind::Underscore) || self.at(TokenKind::Using)
    }

    /// decls ::= decl*, after `decls`. They end where no declaration begins.
    #[verifier::opaque]
    pub open spec fn decls(self, decls: Seq<DeclView>) -> Parsed<Seq<DeclView>>
        decreases self.left(), 52nat,
    {
        if self.at_decl() {
            let item = self.decl();
            match item.result {
                Err(e) => item.state.fail(e),
                Ok(decl) => self.past(item.state).decls(decls.push(decl)),
            }
        } else {
            self.ok(decls)
        }
    }

    /// program ::= decls. The reports collected on the way make the parse fail.
    pub open spec fn program(self) -> Parsed<ObjectView> {
        let read = self.decls(seq![]);
        match read.result {
            Err(e) => read.state.fail(e),
            Ok(decls) => if read.state.errors.len() == 0 {
                read.state.ok(
                    ObjectView::Module {
                        line_info: decls_span(decls),
                        decls,
                    },
                )
            } else {
                read.state.fail(ErrorView::Errors(read.state.errors))
            },
        }
    }
}

/// The region of declarations. Without any it is the beginning of the text.
pub open spec fn decls_span(decls: Seq<DeclView>) -> Span {
    if decls.len() == 0 {
        Span { line_start: 1, line_end: 1, col_start: 1, col_end: 1 }
    } else {
        span_from(decls.first().span(), decls.last().span())
    }
}

/// The kinds of tokens that can begin a primary expression, as they are reported.
pub open spec fn primary_kinds() -> Seq<TokenKind> {
    seq![
        TokenKind::True,
        TokenKind::False,
        TokenKind::IntLit,
        TokenKind::FloatLit,
        TokenKind::Ident,
        TokenKind::LParen,
        TokenKind::LBrace,
        TokenKind::LBrack,
        TokenKind::If,
        TokenKind::While,
        TokenKind::Break,
        TokenKind::Continue,
        TokenKind::Return,
    ]
}

/// The kinds of tokens that can begin a type.
pub open spec fn type_kinds() -> Seq<TokenKind> {
    seq![
        TokenKind::Ident,
        TokenKind::Fun,
        TokenKind::Const,
        TokenKind::Star,
        TokenKind::LBrack,
        TokenKind::LParen,
        TokenKind::Void,
        TokenKind::Noreturn,
        TokenKind::Typedef,
    ]
}

/// The kinds of tokens that can begin a statement, as they are reported.
pub open spec fn stmt_kinds() -> Seq<TokenKind> {
    seq![
        TokenKind::If,
        TokenKind::Label,
        TokenKind::While,
        TokenKind::LBrace,
        TokenKind::Yield,
        TokenKind::Continue,
        TokenKind::Break,
        TokenKind::Return,
    ]
}

/// The kinds of tokens that can begin an object, as they are reported.
pub open spec fn object_kinds() -> Seq<TokenKind> {
    seq![
        TokenKind::Module,
        TokenKind::Struct,
        TokenKind::Union,
        TokenKind::Fun,
        TokenKind::Typedef,
    ]
}

} // verus!
