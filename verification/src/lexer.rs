use vstd::prelude::*;

use crate::bigint::Int;
use crate::common::{
    CompileError, CompileResult, error_models, ErrorView, LineInfo, plain_result_model,
    result_model, Span,
};
use crate::text::{
    char_text, decimal, decimal_text, from_chars, join2, join3, join5, push_char, to_chars,
};
use crate::token::{
    get_word_kind, word_kind, Token, TokenKind, TokenSuffix, TokenValue, TokenValueView, TokenView,
};

pub mod laws;
pub mod literal_laws;
pub mod model;

use self::laws::{
    ends_gap, is_gap, law_blanks_skipped_once, law_nothing_to_read, law_skipped_is_gap, law_step,
    steps,
};
use self::model::{
    char_digit, is_ascii_blank, is_blank, is_code_point, is_decimal_digit, is_digit, is_letter,
    is_white_space, is_word_char, law_token_text, lemma_advanced_by, lemma_comment_skipped,
    lemma_escape_read, lemma_line_skipped, lemma_place_bounds, lower_case, radix_base, reads_on,
    simple_escape, single_kind, suffix_text, trimmed, LexState, Lexed, NumberRadix,
};

verus! {

/// Reads the tokens of a source text one after the other.
pub struct Lexer {
    pub file_path: String,
    text: Vec<char>,
    start: usize,
    index: usize,
    line_info: LineInfo,
}

impl View for Lexer {
    type V = LexState;

    closed spec fn view(&self) -> LexState {
        LexState {
            file_path: self.file_path@,
            text: self.text@,
            start: self.start as int,
            index: self.index as int,
            span: self.line_info@,
        }
    }
}

/// The state of a lexer that has read nothing.
pub open spec fn initial_state(file_path: Seq<char>, text: Seq<char>) -> LexState {
    LexState {
        file_path,
        text: trimmed(text),
        start: 0,
        index: 0,
        span: Span { line_start: 1, line_end: 1, col_start: 1, col_end: 1 },
    }
}

impl Lexer {
    /// Whether the lexer stands within its text, lines and columns count what was read, and the
    /// text is not longer than a machine can hold.
    pub open spec fn wf(&self) -> bool {
        self@.counted() && self@.text.len() < isize::MAX
    }

    /// A lexer for a text, whose white space at the end does not count.
    pub fn new(file_path: &str, text: &str) -> (r: Self)
        requires
            text@.len() < isize::MAX,
        ensures
            r@ == initial_state(file_path@, text@),
            r.wf(),
            r@.has_next() <==> exists|i: int|
                0 <= i < text@.len() && !is_white_space(#[trigger] text@[i]),
    {
        proof {
            law_nothing_to_read(file_path@, text@);
        }
        let mut chars: Vec<char> = to_chars(text);
        while chars.len() > 0 && Self::is_white(chars[chars.len() - 1])
            invariant
                chars@.len() <= text@.len(),
                trimmed(chars@) == trimmed(text@),
            decreases chars@.len(),
        {
            let ghost before = chars@;
            chars.pop();
            assert(chars@ == before.drop_last());
        }
        Lexer {
            file_path: file_path.to_owned(),
            text: chars,
            start: 0,
            index: 0,
            line_info: LineInfo::default(),
        }
    }

    /// Whether characters are left.
    pub fn has_next_token(&self) -> (r: bool)
        ensures
            r == self@.has_next(),
    {
        self.index < self.text.len()
    }

    /// The next token. Blanks and comments before and after it are skipped.
    pub fn next_token(&mut self) -> (r: CompileResult<Token>)
        requires
            old(self).wf(),
        ensures
            final(self).wf(),
            final(self)@ == old(self)@.next_token().state,
            result_model(r) == old(self)@.next_token().result,
            r matches Ok(token) ==> token@.line_info.col_end < usize::MAX,
    {
        proof {
            law_token_text(self@);
            if self@.token_read().result is Ok {
                lemma_place_bounds(self@.text, self@.token_read().state.index);
            }
        }
        let token: Token = match self.next_token_impl() {
            Ok(token) => token,
            Err(e) => {
                return Err(e);
            },
        };
        // Skip comments so that has_next_token does not get confused
        match self.skip_unwanted() {
            Ok(_) => Ok(token),
            Err(e) => Err(e),
        }
    }

    fn next_token_impl(&mut self) -> (r: CompileResult<Token>)
        requires
            old(self).wf(),
        ensures
            final(self).wf(),
            final(self)@ == old(self)@.token_read().state,
            result_model(r) == old(self)@.token_read().result,
    {
        self.index = self.start;
        self.line_info.line_end = self.line_info.line_start;
        self.line_info.col_end = self.line_info.col_start;
        assert(self@ == old(self)@.rewound());
        match self.skip_unwanted() {
            Ok(_) => {},
            Err(e) => {
                return Err(e);
            },
        }
        let c: char = match self.getchar() {
            Ok(c) => c,
            Err(e) => {
                return Err(e);
            },
        };
        self.token_from(c)
    }

    /// The token that begins with the character `c`, which has just been read.
    fn token_from(&mut self, c: char) -> (r: CompileResult<Token>)
        requires
            old(self).wf(),
            old(self)@.start < old(self)@.index,
            old(self)@.text[old(self)@.index - 1] == c,
        ensures
            final(self).wf(),
            final(self)@ == old(self)@.token_from(c).state,
            result_model(r) == old(self)@.token_from(c).result,
    {
        if let Some(kind) = Self::single_kind(c) {
            return Ok(self.make_token(kind));
        }
        if c == '<' {
            if self.check("=") {
                Ok(self.make_token(TokenKind::LessEq))
            } else {
                Ok(self.make_longest("<", TokenKind::ShiftLeft, TokenKind::LAngle))
            }
        } else if c == '>' {
            if self.check("=") {
                Ok(self.make_token(TokenKind::GreaterEq))
            } else {
                Ok(self.make_longest(">", TokenKind::ShiftRight, TokenKind::RAngle))
            }
        } else if c == '=' {
            Ok(self.make_longest("=", TokenKind::EqEq, TokenKind::Equal))
        } else if c == '+' {
            if self.check("%") {
                Ok(self.make_token(TokenKind::PlusPercent))
            } else {
                Ok(self.make_longest(":", TokenKind::PlusColon, TokenKind::Plus))
            }
        } else if c == '-' {
            if self.check(">") {
                Ok(self.make_token(TokenKind::Arrow))
            } else if self.check("%") {
                Ok(self.make_token(TokenKind::MinusPercent))
            } else {
                Ok(self.make_longest(":", TokenKind::MinusColon, TokenKind::Minus))
            }
        } else if c == '!' {
            match self.expect("=") {
                Ok(_) => Ok(self.make_token(TokenKind::NotEq)),
                Err(e) => Err(e),
            }
        } else if c == '#' {
            match self.expect_ident(true) {
                Ok(_) => Ok(self.make_token(TokenKind::Ident)),
                Err(e) => Err(e),
            }
        } else if c == '$' {
            match self.expect_ident(true) {
                Ok(_) => Ok(self.make_token(TokenKind::Label)),
                Err(e) => Err(e),
            }
        } else if c == '_' || Self::is_ascii_letter(c) {
            match self.expect_ident(false) {
                Ok(_) => Ok(self.make_token(TokenKind::Ident)),
                Err(e) => Err(e),
            }
        } else if c == '"' {
            match self.expect_string("", '"', false, false) {
                Ok(s) => Ok(
                    self.make_token_with_val(TokenKind::StringLit, Some(TokenValue::String(s))),
                ),
                Err(e) => Err(e),
            }
        } else if c == '`' {
            match self.expect_string("", '`', true, false) {
                Ok(s) => Ok(
                    self.make_token_with_val(TokenKind::StringLit, Some(TokenValue::String(s))),
                ),
                Err(e) => Err(e),
            }
        } else if Self::is_decimal(c) {
            self.digit_token(c)
        } else {
            Err(self.make_error_cur(join3("unexpected char '", &char_text(c), "'")))
        }
    }

    /// The number that begins with the digit `c`, which has just been read.
    fn digit_token(&mut self, c: char) -> (r: CompileResult<Token>)
        requires
            old(self).wf(),
            old(self)@.start < old(self)@.index,
            old(self)@.text[old(self)@.index - 1] == c,
            c != '\n',
        ensures
            final(self).wf(),
            final(self)@ == old(self)@.digit_token(c).state,
            result_model(r) == old(self)@.digit_token(c).result,
    {
        if c == '0' {
            if let Some(mark) = self.peek() {
                if mark == 'b' || mark == 'B' {
                    self.advance();
                    return self.get_radix_int_token(NumberRadix::Binary);
                } else if mark == 'o' || mark == 'O' {
                    self.advance();
                    return self.get_radix_int_token(NumberRadix::Octal);
                } else if mark == 'x' || mark == 'X' {
                    self.advance();
                    return self.get_number_token(NumberRadix::Hex, 'p');
                }
            }
        }
        proof {
            lemma_place_bounds(self@.text, self@.index - 1);
        }
        self.index = self.index - 1;
        self.line_info.col_end = self.line_info.col_end - 1;
        assert(self@ == old(self)@.stepped_back());
        self.get_number_token(NumberRadix::Decimal, 'e')
    }

    fn get_radix_int_token(&mut self, radix: NumberRadix) -> (r: CompileResult<Token>)
        requires
            old(self).wf(),
        ensures
            final(self).wf(),
            final(self)@ == old(self)@.radix_int_token(radix).state,
            result_model(r) == old(self)@.radix_int_token(radix).result,
    {
        match self.expect_number(radix) {
            Ok(integral) => Ok(self.make_int_token(integral)),
            Err(e) => Err(e),
        }
    }

    /// Skips blanks and comments. The next token begins where they end.
    pub fn skip_unwanted(&mut self) -> (r: CompileResult<()>)
        requires
            old(self).wf(),
        ensures
            final(self).wf(),
            final(self)@ == old(self)@.blanks_skipped().state,
            plain_result_model(r) == old(self)@.blanks_skipped().result,
            r is Ok ==> is_gap(old(self)@.text, old(self)@.index, final(self)@.index),
            r is Ok ==> ends_gap(final(self)@.text, final(self)@.index),
            r is Ok ==> final(self)@.blanks_skipped().state == final(self)@,
    {
        proof {
            law_skipped_is_gap(self@);
            law_blanks_skipped_once(self@);
        }
        let ghost goal = self@.blanks_skipped();
        loop
            invariant
                self.wf(),
                self@.blanks_skipped() == goal,
                goal == old(self)@.blanks_skipped(),
                goal.result is Ok ==> is_gap(old(self)@.text, old(self)@.index, goal.state.index),
                goal.result is Ok ==> ends_gap(goal.state.text, goal.state.index),
                goal.result is Ok ==> goal.state.blanks_skipped() == goal,
            decreases self@.text.len() - self@.index,
        {
            let c: char = match self.peek() {
                Some(c) => c,
                None => {
                    return Ok(());
                },
            };
            let next: Option<char> = self.peek_at(1);
            if c == '/' && next == Some('/') {
                // Single line comment
                self.advance();
                self.advance();
                proof {
                    lemma_line_skipped(self@);
                }
                self.skip_line();
            } else if c == '/' && next == Some('*') {
                // Multi line comment
                self.mark();
                self.advance();
                self.advance();
                proof {
                    lemma_comment_skipped(self@, 1);
                }
                match self.skip_multiline_comment() {
                    Ok(_) => {},
                    Err(e) => {
                        return Err(e);
                    },
                }
            } else if Self::is_blank_char(c) {
                self.advance();
            } else {
                self.mark();
                return Ok(());
            }
        }
    }

    fn skip_multiline_comment(&mut self) -> (r: CompileResult<()>)
        requires
            old(self).wf(),
        ensures
            final(self).wf(),
            final(self)@ == old(self)@.comment_skipped(1).state,
            plain_result_model(r) == old(self)@.comment_skipped(1).result,
    {
        let mut depth: usize = 1;
        let ghost goal = self@.comment_skipped(1);
        while depth > 0
            invariant
                self.wf(),
                depth <= self@.index + 1,
                self@.comment_skipped(depth as nat) == goal,
                goal == old(self)@.comment_skipped(1),
            decreases self@.text.len() - self@.index + (if depth > 0 { 1int } else { 0 }),
        {
            let c: char = match self.peek() {
                Some(c) => c,
                None => {
                    let msg: String = join3(
                        "expected end of multiline comment, comment depth: '",
                        &decimal_text(depth as u128),
                        "'",
                    );
                    let mut errs: Vec<CompileError> = Vec::new();
                    errs.push(self.make_error(msg));
                    errs.push(self.make_note_at_start("comment starts here".to_owned()));
                    assert(error_models(errs@) == seq![errs@[0]@, errs@[1]@]);
                    return Err(CompileError::Errors(errs));
                },
            };
            let next: Option<char> = self.peek_at(1);
            if c == '/' && next == Some('*') {
                self.advance();
                depth = depth + 1;
            } else if c == '*' && next == Some('/') {
                self.advance();
                depth = depth - 1;
            }
            self.advance();
        }
        Ok(())
    }

    fn skip_line(&mut self)
        requires
            old(self).wf(),
        ensures
            final(self).wf(),
            final(self)@ == old(self)@.line_skipped(),
    {
        let ghost goal = self@.line_skipped();
        loop
            invariant
                self.wf(),
                self@.line_skipped() == goal,
                goal == old(self)@.line_skipped(),
            decreases self@.text.len() - self@.index,
        {
            match self.peek() {
                Some(c) => {
                    if c == '\n' {
                        return;
                    }
                    self.advance();
                },
                None => {
                    return;
                },
            }
        }
    }

    fn mark(&mut self)
        requires
            old(self).wf(),
        ensures
            final(self).wf(),
            final(self)@ == old(self)@.marked(),
    {
        self.start = self.index;
        self.line_info.line_start = self.line_info.line_end;
        self.line_info.col_start = self.line_info.col_end;
    }

    fn make_token_with_val(&mut self, kind: TokenKind, value: Option<TokenValue>) -> (r: Token)
        requires
            old(self).wf(),
        ensures
            final(self).wf(),
            ({
                let model = match value {
                    Some(v) => Some(v@),
                    None => None,
                };
                &&& final(self)@ == old(self)@.token_made(kind, model).state
                &&& old(self)@.token_made(kind, model).result == Ok::<TokenView, ErrorView>(r@)
            }),
    {
        // Construct the token
        let text: String = from_chars(
            vstd::slice::slice_subrange(self.text.as_slice(), self.start, self.index),
        );
        let result: Token = Token {
            line_info: self.line_info,
            kind: if kind == TokenKind::Ident {
                Self::get_ident_kind(&text)
            } else {
                kind
            },
            text,
            value,
        };
        // Move the marker
        self.mark();
        // Return the token
        result
    }

    fn make_token(&mut self, kind: TokenKind) -> (r: Token)
        requires
            old(self).wf(),
        ensures
            final(self).wf(),
            final(self)@ == old(self)@.token_made(kind, None).state,
            old(self)@.token_made(kind, None).result == Ok::<TokenView, ErrorView>(r@),
    {
        self.make_token_with_val(kind, None)
    }

    fn make_longest(&mut self, word: &str, long: TokenKind, short: TokenKind) -> (r: Token)
        requires
            old(self).wf(),
        ensures
            final(self).wf(),
            final(self)@ == old(self)@.longest_token(word@, long, short).state,
            old(self)@.longest_token(word@, long, short).result == Ok::<TokenView, ErrorView>(r@),
    {
        if self.check(word) {
            self.make_token(long)
        } else {
            self.make_token(short)
        }
    }

    fn make_int_token(&mut self, integral: Int) -> (r: Token)
        requires
            old(self).wf(),
            old(self)@.start < old(self)@.index,
        ensures
            final(self).wf(),
            final(self)@ == old(self)@.int_token(integral@).state,
            old(self)@.int_token(integral@).result == Ok::<TokenView, ErrorView>(r@),
    {
        let suffix: Option<TokenSuffix> = self.check_int_suffix();
        self.make_token_with_val(TokenKind::IntLit, Some(TokenValue::Int { integral, suffix }))
    }

    fn make_float_token(&mut self, integral: Int, fractional: Int, mantissa: Int) -> (r: Token)
        requires
            old(self).wf(),
            old(self)@.start < old(self)@.index,
        ensures
            final(self).wf(),
            final(self)@ == old(self)@.float_token(integral@, fractional@, mantissa@).state,
            old(self)@.float_token(integral@, fractional@, mantissa@).result == Ok::<
                TokenView,
                ErrorView,
            >(r@),
    {
        let suffix: Option<TokenSuffix> = self.check_float_suffix();
        let value: TokenValue = TokenValue::Float { integral, fractional, mantissa, suffix };
        self.make_token_with_val(TokenKind::FloatLit, Some(value))
    }

    /// The kind of a word: a keyword, a directive, or an identifier.
    pub fn get_ident_kind(text: &str) -> (kind: TokenKind)
        ensures
            kind == word_kind(text@),
    {
        get_word_kind(text)
    }

    fn peek_at(&self, i: usize) -> (r: Option<char>)
        requires
            self.wf(),
        ensures
            r == self@.peek_at(i as int),
    {
        if i < self.text.len() - self.index {
            Some(self.text[self.index + i])
        } else {
            None
        }
    }

    fn peek(&self) -> (r: Option<char>)
        requires
            self.wf(),
        ensures
            r == self@.peek(),
    {
        self.peek_at(0)
    }

    fn getchar(&mut self) -> (r: CompileResult<char>)
        requires
            old(self).wf(),
        ensures
            final(self).wf(),
            final(self)@ == old(self)@.char_read().state,
            plain_result_model(r) == old(self)@.char_read().result,
    {
        match self.advance() {
            Some(c) => Ok(c),
            None => Err(self.make_error_cur("unexpected end of file".to_owned())),
        }
    }

    /// Reads the next character, if there is one. A line break leads to the first column of the
    /// next line, any other character to the next column.
    pub fn advance(&mut self) -> (r: Option<char>)
        requires
            old(self).wf(),
        ensures
            final(self).wf(),
            final(self)@ == old(self)@.advanced(),
            r == old(self)@.peek(),
            steps(old(self)@, r, final(self)@),
    {
        proof {
            law_step(self@);
        }
        let result: Option<char> = self.peek();
        proof {
            lemma_place_bounds(self@.text, self@.index);
        }
        if let Some(c) = result {
            self.index = self.index + 1;
            self.line_info.col_end = self.line_info.col_end + 1;
            if c == '\n' {
                self.line_info.line_end = self.line_info.line_end + 1;
                self.line_info.col_end = 1;
            }
        }
        result
    }

    fn check(&mut self, word: &str) -> (r: bool)
        requires
            old(self).wf(),
        ensures
            final(self).wf(),
            r == old(self)@.looking_at(word@),
            final(self)@ == old(self)@.word_skipped(word@),
            reads_on(old(self)@, final(self)@),
    {
        let chars: Vec<char> = to_chars(word);
        let ghost s = self@;
        if chars.len() > self.text.len() - self.index {
            return false;
        }
        let mut i: usize = 0;
        while i < chars.len()
            invariant
                i <= chars@.len(),
                self.wf(),
                chars@ == word@,
                self@ == s,
                s.index + chars@.len() <= s.text.len(),
                forall|k: int| 0 <= k < i ==> s.text[s.index + k] == #[trigger] word@[k],
            decreases chars@.len() - i,
        {
            if self.text[self.index + i] != chars[i] {
                assert(s.text.subrange(s.index, s.index + word@.len())[i as int]
                    != word@[i as int]);
                return false;
            }
            i = i + 1;
        }
        assert(s.text.subrange(s.index, s.index + word@.len()) == word@);
        proof {
            lemma_advanced_by(s, word@.len());
        }
        let mut left: usize = chars.len();
        while left > 0
            invariant
                self.wf(),
                left <= chars@.len(),
                self@.advanced_by(left as nat) == s.advanced_by(chars@.len()),
            decreases left,
        {
            self.advance();
            left = left - 1;
        }
        true
    }

    fn is_white(c: char) -> (r: bool)
        ensures
            r == is_white_space(c),
    {
        ('\u{9}' <= c && c <= '\u{d}') || c == ' ' || c == '\u{85}' || c == '\u{a0}' || c
            == '\u{1680}' || ('\u{2000}' <= c && c <= '\u{200a}') || c == '\u{2028}' || c
            == '\u{2029}' || c == '\u{202f}' || c == '\u{205f}' || c == '\u{3000}'
    }

    fn is_blank_char(c: char) -> (r: bool)
        ensures
            r == is_blank(c),
    {
        c == ' ' || c == '\t' || c == '\r' || c == '\n'
    }

    fn is_ascii_white(c: char) -> (r: bool)
        ensures
            r == is_ascii_blank(c),
    {
        c == ' ' || c == '\t' || c == '\n' || c == '\u{c}' || c == '\r'
    }

    fn is_ascii_letter(c: char) -> (r: bool)
        ensures
            r == is_letter(c),
    {
        ('a' <= c && c <= 'z') || ('A' <= c && c <= 'Z')
    }

    fn is_ident_char(c: char) -> (r: bool)
        ensures
            r == is_word_char(c),
    {
        c == '_' || Self::is_ascii_letter(c) || Self::is_decimal(c)
    }

    /// Whether a character is a binary digit.
    pub fn is_binary(c: char) -> (r: bool)
        ensures
            r == is_digit(NumberRadix::Binary, c),
    {
        c == '0' || c == '1'
    }

    /// Whether a character is an octal digit.
    pub fn is_octal(c: char) -> (r: bool)
        ensures
            r == is_digit(NumberRadix::Octal, c),
    {
        '0' <= c && c <= '7'
    }

    /// Whether a character is a decimal digit.
    pub fn is_decimal(c: char) -> (r: bool)
        ensures
            r == is_digit(NumberRadix::Decimal, c),
    {
        '0' <= c && c <= '9'
    }

    /// Whether a character is a hexadecimal digit.
    pub fn is_hex(c: char) -> (r: bool)
        ensures
            r == is_digit(NumberRadix::Hex, c),
    {
        ('0' <= c && c <= '9') || ('a' <= c && c <= 'f') || ('A' <= c && c <= 'F')
    }

    fn is_radix_digit(radix: NumberRadix, c: char) -> (r: bool)
        ensures
            r == is_digit(radix, c),
    {
        match radix {
            NumberRadix::Binary => Self::is_binary(c),
            NumberRadix::Octal => Self::is_octal(c),
            NumberRadix::Decimal => Self::is_decimal(c),
            NumberRadix::Hex => Self::is_hex(c),
        }
    }

    fn digit_value(c: char) -> (r: u32)
        requires
            is_digit(NumberRadix::Hex, c),
        ensures
            r == char_digit(c),
            r < 16,
    {
        if '0' <= c && c <= '9' {
            c as u32 - '0' as u32
        } else if 'a' <= c && c <= 'f' {
            c as u32 - 'a' as u32 + 10
        } else {
            c as u32 - 'A' as u32 + 10
        }
    }

    fn single_kind(c: char) -> (r: Option<TokenKind>)
        ensures
            r == single_kind(c),
    {
        if c == '(' {
            Some(TokenKind::LParen)
        } else if c == ')' {
            Some(TokenKind::RParen)
        } else if c == '{' {
            Some(TokenKind::LBrace)
        } else if c == '}' {
            Some(TokenKind::RBrace)
        } else if c == '[' {
            Some(TokenKind::LBrack)
        } else if c == ']' {
            Some(TokenKind::RBrack)
        } else if c == ',' {
            Some(TokenKind::Comma)
        } else if c == ':' {
            Some(TokenKind::Colon)
        } else if c == ';' {
            Some(TokenKind::Semicolon)
        } else if c == '.' {
            Some(TokenKind::Dot)
        } else if c == '~' {
            Some(TokenKind::Tilde)
        } else if c == '*' {
            Some(TokenKind::Star)
        } else if c == '/' {
            Some(TokenKind::Slash)
        } else if c == '%' {
            Some(TokenKind::Percent)
        } else if c == '&' {
            Some(TokenKind::Ampersand)
        } else if c == '^' {
            Some(TokenKind::Caret)
        } else if c == '|' {
            Some(TokenKind::Pipe)
        } else {
            None
        }
    }

    fn check_float_suffix(&mut self) -> (r: Option<TokenSuffix>)
        requires
            old(self).wf(),
        ensures
            final(self).wf(),
            r == old(self)@.float_suffix(),
            final(self)@ == old(self)@.suffix_skipped(r),
            reads_on(old(self)@, final(self)@),
    {
        if self.check("f32") {
            Some(TokenSuffix::F32)
        } else if self.check("f64") {
            Some(TokenSuffix::F64)
        } else {
            None
        }
    }

    fn check_int_suffix(&mut self) -> (r: Option<TokenSuffix>)
        requires
            old(self).wf(),
        ensures
            final(self).wf(),
            r == old(self)@.int_suffix(),
            final(self)@ == old(self)@.suffix_skipped(r),
            reads_on(old(self)@, final(self)@),
    {
        if self.check("i8") {
            Some(TokenSuffix::I8)
        } else if self.check("i16") {
            Some(TokenSuffix::I16)
        } else if self.check("i32") {
            Some(TokenSuffix::I32)
        } else if self.check("i64") {
            Some(TokenSuffix::I64)
        } else if self.check("i128") {
            Some(TokenSuffix::I128)
        } else if self.check("isize") {
            Some(TokenSuffix::ISize)
        } else if self.check("u8") {
            Some(TokenSuffix::U8)
        } else if self.check("u16") {
            Some(TokenSuffix::U16)
        } else if self.check("u32") {
            Some(TokenSuffix::U32)
        } else if self.check("u64") {
            Some(TokenSuffix::U64)
        } else if self.check("u128") {
            Some(TokenSuffix::U128)
        } else if self.check("usize") {
            Some(TokenSuffix::USize)
        } else {
            None
        }
    }

    fn same_letter(c: char, d: char) -> (r: bool)
        ensures
            r == (lower_case(c) == lower_case(d)),
    {
        let c1: char = if 'A' <= c && c <= 'Z' {
            (c as u8 + 32) as char
        } else {
            c
        };
        let d1: char = if 'A' <= d && d <= 'Z' {
            (d as u8 + 32) as char
        } else {
            d
        };
        c1 == d1
    }

    fn get_number_token(&mut self, radix: NumberRadix, exp: char) -> (r: CompileResult<Token>)
        requires
            old(self).wf(),
        ensures
            final(self).wf(),
            final(self)@ == old(self)@.number_token(radix, exp).state,
            result_model(r) == old(self)@.number_token(radix, exp).result,
    {
        let integral: Int = match self.expect_number(radix) {
            Ok(n) => n,
            Err(e) => {
                return Err(e);
            },
        };
        let c: char = match self.peek() {
            Some(c) => c,
            None => {
                return Ok(self.make_int_token(integral));
            },
        };
        if c == '.' {
            // decimal float
            self.advance();
            let fractional: Int = match self.expect_number(radix) {
                Ok(n) => n,
                Err(e) => {
                    return Err(e);
                },
            };
            let mut mantissa: Int = Int::new();
            if let Some(mark) = self.peek() {
                if Self::same_letter(mark, exp) {
                    mantissa = match self.expect_exponent(radix) {
                        Ok(n) => n,
                        Err(e) => {
                            return Err(e);
                        },
                    };
                }
            }
            Ok(self.make_float_token(integral, fractional, mantissa))
        } else if c == exp {
            let mantissa: Int = match self.expect_exponent(radix) {
                Ok(n) => n,
                Err(e) => {
                    return Err(e);
                },
            };
            Ok(self.make_float_token(integral, Int::new(), mantissa))
        } else {
            Ok(self.make_int_token(integral))
        }
    }

    fn expect_exponent(&mut self, radix: NumberRadix) -> (r: CompileResult<Int>)
        requires
            old(self).wf(),
            old(self)@.peek() is Some,
        ensures
            final(self).wf(),
            final(self)@ == old(self)@.exponent_read(radix).state,
            result_model(r) == old(self)@.exponent_read(radix).result,
            reads_on(old(self)@, final(self)@),
    {
        self.advance();
        let c: char = match self.getchar() {
            Ok(c) => c,
            Err(e) => {
                return Err(e);
            },
        };
        if c != '+' && c != '-' {
            return Err(self.make_error_cur("expected '+' or '-'".to_owned()));
        }
        match self.expect_number(radix) {
            Ok(n) => if c == '-' {
                Ok(n.negated())
            } else {
                Ok(n)
            },
            Err(e) => Err(e),
        }
    }

    fn expect_number(&mut self, radix: NumberRadix) -> (r: CompileResult<Int>)
        requires
            old(self).wf(),
        ensures
            final(self).wf(),
            final(self)@ == old(self)@.number_expected(radix).state,
            result_model(r) == old(self)@.number_expected(radix).result,
            reads_on(old(self)@, final(self)@),
            r is Ok ==> old(self)@.index < final(self)@.index,
    {
        match radix {
            NumberRadix::Binary => self.expect_number_impl(2, radix),
            NumberRadix::Octal => self.expect_number_impl(8, radix),
            NumberRadix::Decimal => self.expect_number_impl(10, radix),
            NumberRadix::Hex => self.expect_number_impl(16, radix),
        }
    }

    fn expect_number_impl(&mut self, base: u32, radix: NumberRadix) -> (r: CompileResult<Int>)
        requires
            old(self).wf(),
            base == radix_base(radix),
        ensures
            final(self).wf(),
            final(self)@ == old(self)@.number_expected(radix).state,
            result_model(r) == old(self)@.number_expected(radix).result,
            reads_on(old(self)@, final(self)@),
            r is Ok ==> old(self)@.index < final(self)@.index,
    {
        let c: char = match self.getchar() {
            Ok(c) => c,
            Err(e) => {
                return Err(e);
            },
        };
        if !Self::is_radix_digit(radix, c) {
            return Err(self.make_error_cur("expected decimal digit".to_owned()));
        }
        let zero: Int = Int::new();
        let mut number: Int = zero.with_digit(base, Self::digit_value(c));
        let ghost first = self@;
        let ghost goal = self@.digits_read(radix, char_digit(c));
        assert(0 * (base as int) == 0) by (nonlinear_arith);
        loop
            invariant_except_break
                self.wf(),
                base == radix_base(radix),
                number@ >= 0,
                reads_on(first, self@),
                self@.digits_read(radix, number@) == goal,
            ensures
                self.wf(),
                reads_on(first, self@),
                (self@, number@) == goal,
            decreases self@.text.len() - self@.index,
        {
            match self.peek() {
                Some(c) => {
                    if !Self::is_radix_digit(radix, c) {
                        break;
                    }
                    assert(number@ * (base as int) >= 0) by (nonlinear_arith)
                        requires
                            number@ >= 0,
                            base >= 0,
                    ;
                    number = number.with_digit(base, Self::digit_value(c));
                    self.advance();
                },
                None => {
                    break;
                },
            }
        }
        Ok(number)
    }

    fn unescape_byte(&mut self) -> (r: CompileResult<char>)
        requires
            old(self).wf(),
        ensures
            final(self).wf(),
            final(self)@ == old(self)@.byte_escape().state,
            plain_result_model(r) == old(self)@.byte_escape().result,
    {
        let dig1: char = match self.getchar() {
            Ok(c) => c,
            Err(e) => {
                return Err(e);
            },
        };
        if !Self::is_octal(dig1) {
            return Err(self.make_error_cur("expected octal digit".to_owned()));
        }
        let dig2: char = match self.getchar() {
            Ok(c) => c,
            Err(e) => {
                return Err(e);
            },
        };
        if !Self::is_hex(dig2) {
            return Err(self.make_error_cur("expected hex digit".to_owned()));
        }
        let high: u8 = Self::digit_value(dig1) as u8;
        let low: u8 = Self::digit_value(dig2) as u8;
        let num: u8 = high * 16 + low;
        Ok(num as char)
    }

    fn unescape_code(&mut self) -> (r: CompileResult<char>)
        requires
            old(self).wf(),
        ensures
            final(self).wf(),
            final(self)@ == old(self)@.code_escape().state,
            plain_result_model(r) == old(self)@.code_escape().result,
    {
        match self.expect("{") {
            Ok(_) => {},
            Err(e) => {
                return Err(e);
            },
        }
        let start: LineInfo = self.line_info;
        let mut num: u32 = 0;
        let mut times: usize = 0;
        let ghost open = self@;
        let ghost goal = open.code_digits(0, 0);
        loop
            invariant_except_break
                self.wf(),
                times < 6,
                goal == open.code_digits(0, 0),
                open == old(self)@.word_expected("{"@).state,
                old(self)@.word_expected("{"@).result is Ok,
                times == 0 ==> num == 0,
                times == 1 ==> num < 0x10,
                times == 2 ==> num < 0x100,
                times == 3 ==> num < 0x1000,
                times == 4 ==> num < 0x10000,
                times == 5 ==> num < 0x100000,
                self@.code_digits(num as int, times as int) == goal,
            ensures
                self.wf(),
                goal == self@.ok((num as int, times as int)),
            decreases 6 - times,
        {
            if let Some(c) = self.peek() {
                if c == '}' {
                    break;
                }
                if !Self::is_hex(c) {
                    return Err(self.make_error("expected hex digit".to_owned()));
                }
            }
            let c: char = match self.getchar() {
                Ok(c) => c,
                Err(e) => {
                    return Err(e);
                },
            };
            num = num * 16 + Self::digit_value(c);
            times = times + 1;
            if times >= 6 {
                break;
            }
        }
        if times < 1 {
            return Err(self.make_error("expected hex digit".to_owned()));
        }
        let res: char = match Self::char_from_code(num) {
            Some(c) => c,
            None => {
                return Err(
                    self.make_error_range(
                        LineInfo {
                            line_start: start.line_end,
                            line_end: self.line_info.line_end,
                            col_start: start.col_end,
                            col_end: self.line_info.col_end,
                        },
                        "invalid value of unicode codepoint".to_owned(),
                    ),
                );
            },
        };
        match self.expect("}") {
            Ok(_) => Ok(res),
            Err(e) => Err(e),
        }
    }

    /// `char::from_u32` of the standard library gives the character with a code point, and `None`
    /// where the number is not a Unicode scalar value.
    #[verifier::external_body]
    fn char_from_code(num: u32) -> (r: Option<char>)
        ensures
            r is Some <==> is_code_point(num as int),
            r matches Some(c) ==> c as int == num,
    {
        char::from_u32(num)
    }

    fn simple_unescape(c: char) -> (r: Option<char>)
        ensures
            r == simple_escape(c),
    {
        if c == '0' {
            Some('\0')
        } else if c == 'a' {
            Some('\u{7}')
        } else if c == 'b' {
            Some('\u{8}')
        } else if c == 'e' {
            Some('\u{1b}')
        } else if c == 'f' {
            Some('\u{c}')
        } else if c == 'n' {
            Some('\n')
        } else if c == 'r' {
            Some('\r')
        } else if c == 't' {
            Some('\t')
        } else if c == 'v' {
            Some('\u{b}')
        } else if c == '"' || c == '\'' || c == '`' || c == '\\' {
            Some(c)
        } else {
            None
        }
    }

    fn skip_ascii_white(&mut self)
        requires
            old(self).wf(),
        ensures
            final(self).wf(),
            final(self)@ == old(self)@.ascii_blanks_skipped(),
    {
        let ghost goal = self@.ascii_blanks_skipped();
        loop
            invariant
                self.wf(),
                self@.ascii_blanks_skipped() == goal,
                goal == old(self)@.ascii_blanks_skipped(),
            decreases self@.text.len() - self@.index,
        {
            match self.peek() {
                Some(c) => {
                    if !Self::is_ascii_white(c) {
                        return;
                    }
                    self.advance();
                },
                None => {
                    return;
                },
            }
        }
    }

    fn unescape(&mut self) -> (r: CompileResult<char>)
        requires
            old(self).wf(),
        ensures
            final(self).wf(),
            final(self)@ == old(self)@.escape_read().state,
            plain_result_model(r) == old(self)@.escape_read().result,
    {
        let c: char = match self.getchar() {
            Ok(c) => c,
            Err(e) => {
                return Err(e);
            },
        };
        if let Some(unescaped) = Self::simple_unescape(c) {
            return Ok(unescaped);
        }
        if c == 'x' {
            self.unescape_byte()
        } else if c == 'u' {
            self.unescape_code()
        } else if c == '\n' {
            self.skip_ascii_white();
            Ok(c)
        } else {
            Err(self.make_error_cur(join3("invalid escape sequence '\\", &char_text(c), "'")))
        }
    }

    fn expect_string(
        &mut self,
        prefix: &str,
        quantifier: char,
        multiline: bool,
        do_start: bool,
    ) -> (r: CompileResult<String>)
        requires
            old(self).wf(),
        ensures
            final(self).wf(),
            final(self)@
                == old(self)@.string_expected(prefix@, quantifier, multiline, do_start).state,
            result_model(r) == old(self)@.string_expected(
                prefix@,
                quantifier,
                multiline,
                do_start,
            ).result,
            reads_on(old(self)@, final(self)@),
    {
        if do_start {
            let first: Option<char> = self.advance();
            if first != Some(quantifier) {
                let mark: String = char_text(quantifier);
                let msg: String = join2(&join5("expected <", prefix, &mark, "...", &mark), ">");
                return Err(self.make_error_cur(msg));
            }
        }
        let mut text: String = String::new();
        let ghost first = self@;
        let ghost goal = self@.string_rest(quantifier, multiline, seq![]);
        assert(text@ == Seq::<char>::empty());
        loop
            invariant
                self.wf(),
                reads_on(first, self@),
                reads_on(old(self)@, first),
                goal == old(self)@.string_expected(prefix@, quantifier, multiline, do_start),
                self@.string_rest(quantifier, multiline, text@) == goal,
            decreases self@.text.len() - self@.index,
        {
            let c: char = match self.peek() {
                Some(c) => c,
                None => {
                    let mark: String = char_text(quantifier);
                    let msg: String = join3("expected end of string <", &mark, ">");
                    return Err(self.make_error(msg));
                },
            };
            if !multiline && c == '\n' {
                return Err(
                    self.make_error("newlines are not allowed in single-line strings".to_owned()),
                );
            }
            self.advance();
            if c == '\\' {
                proof {
                    lemma_escape_read(self@);
                }
                match self.unescape() {
                    Ok(unescaped) => push_char(&mut text, unescaped),
                    Err(e) => {
                        return Err(e);
                    },
                }
            } else {
                if c == quantifier {
                    return Ok(text);
                }
                push_char(&mut text, c);
            }
        }
    }

    fn expect_ident(&mut self, do_start: bool) -> (r: CompileResult<()>)
        requires
            old(self).wf(),
        ensures
            final(self).wf(),
            final(self)@ == old(self)@.identifier_expected(do_start).state,
            plain_result_model(r) == old(self)@.identifier_expected(do_start).result,
            reads_on(old(self)@, final(self)@),
    {
        if do_start {
            match self.advance() {
                Some(c) => {
                    if c != '_' && !Self::is_ascii_letter(c) {
                        return Err(self.make_error_cur("expected identifier".to_owned()));
                    }
                },
                None => {
                    return Err(self.make_error_cur("expected identifier".to_owned()));
                },
            }
        }
        let ghost goal = self@.word_chars_skipped();
        loop
            invariant
                self.wf(),
                reads_on(old(self)@, self@),
                goal.ok(()) == old(self)@.identifier_expected(do_start),
                self@.word_chars_skipped() == goal,
            decreases self@.text.len() - self@.index,
        {
            match self.peek() {
                Some(c) => {
                    if !Self::is_ident_char(c) {
                        return Ok(());
                    }
                    self.advance();
                },
                None => {
                    return Ok(());
                },
            }
        }
    }

    fn expect(&mut self, word: &str) -> (r: CompileResult<()>)
        requires
            old(self).wf(),
        ensures
            final(self).wf(),
            final(self)@ == old(self)@.word_expected(word@).state,
            plain_result_model(r) == old(self)@.word_expected(word@).result,
            reads_on(old(self)@, final(self)@),
    {
        if !self.check(word) {
            Err(self.make_error(join3("expected '", word, "'")))
        } else {
            Ok(())
        }
    }

    fn make_error_range(&self, line_info: LineInfo, msg: String) -> (r: CompileError)
        ensures
            r@ == self@.error_at(line_info@, msg@),
    {
        CompileError::LexerError { file_path: self.file_path.clone(), line_info, msg }
    }

    fn make_error_cur(&self, msg: String) -> (r: CompileError)
        requires
            self.wf(),
        ensures
            r@ == self@.error_cur(msg@),
    {
        proof {
            lemma_place_bounds(self@.text, self@.index);
        }
        self.make_error_range(
            LineInfo {
                line_start: self.line_info.line_end,
                line_end: self.line_info.line_end,
                col_start: self.line_info.col_end - 1,
                col_end: self.line_info.col_end,
            },
            msg,
        )
    }

    fn make_error(&self, msg: String) -> (r: CompileError)
        requires
            self.wf(),
        ensures
            r@ == self@.error_next(msg@),
    {
        proof {
            lemma_place_bounds(self@.text, self@.index);
        }
        self.make_error_range(
            LineInfo {
                line_start: self.line_info.line_end,
                line_end: self.line_info.line_end,
                col_start: self.line_info.col_end,
                col_end: self.line_info.col_end + 1,
            },
            msg,
        )
    }

    fn make_note_at_start(&self, msg: String) -> (r: CompileError)
        requires
            self.wf(),
        ensures
            r@ == self@.note_at_start(msg@),
    {
        proof {
            lemma_place_bounds(self@.text, self@.start);
        }
        CompileError::LexerNote {
            file_path: self.file_path.clone(),
            line_info: LineInfo {
                line_start: self.line_info.line_start,
                line_end: self.line_info.line_start,
                col_start: self.line_info.col_start,
                col_end: self.line_info.col_start + 1,
            },
            msg,
        }
    }
}

} // verus!
