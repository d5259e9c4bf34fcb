use vstd::prelude::*;

use crate::common::{ErrorView, Span, span_from};
use crate::text::{decimal, lemma_decimal_digits};
use crate::token::{word_kind, TokenKind, TokenSuffix, TokenValueView, TokenView};

verus! {

/// The state of the lexer as mathematical values. `start` is where the current token begins,
/// `index` is the next character to read. `span` begins at `start` and ends at `index`.
pub struct LexState {
    pub file_path: Seq<char>,
    pub text: Seq<char>,
    pub start: int,
    pub index: int,
    pub span: Span,
}

/// Whether a character is white space by the Unicode property of that name.
pub open spec fn is_white_space(c: char) -> bool {
    ||| '\u{9}' <= c <= '\u{d}'
    ||| c == ' '
    ||| c == '\u{85}'
    ||| c == '\u{a0}'
    ||| c == '\u{1680}'
    ||| '\u{2000}' <= c <= '\u{200a}'
    ||| c == '\u{2028}'
    ||| c == '\u{2029}'
    ||| c == '\u{202f}'
    ||| c == '\u{205f}'
    ||| c == '\u{3000}'
}

/// The text without the white space at its end.
pub open spec fn trimmed(text: Seq<char>) -> Seq<char>
    decreases text.len(),
{
    if text.len() > 0 && is_white_space(text.last()) {
        trimmed(text.drop_last())
    } else {
        text
    }
}

/// Whether a character separates tokens.
pub open spec fn is_blank(c: char) -> bool {
    c == ' ' || c == '\t' || c == '\r' || c == '\n'
}

pub open spec fn is_letter(c: char) -> bool {
    'a' <= c <= 'z' || 'A' <= c <= 'Z'
}

pub open spec fn is_decimal_digit(c: char) -> bool {
    '0' <= c <= '9'
}

/// Whether a character can stand in an identifier after its first character.
pub open spec fn is_word_char(c: char) -> bool {
    c == '_' || is_letter(c) || is_decimal_digit(c)
}

/// The radix in which a number is written.
#[derive(Clone, Copy, Debug, PartialEq, Eq, Structural)]
pub enum NumberRadix {
    Binary,
    Octal,
    Decimal,
    Hex,
}

/// The base of a radix.
pub open spec fn radix_base(radix: NumberRadix) -> int {
    match radix {
        NumberRadix::Binary => 2,
        NumberRadix::Octal => 8,
        NumberRadix::Decimal => 10,
        NumberRadix::Hex => 16,
    }
}

/// The value of a digit or letter as a digit.
pub open spec fn char_digit(c: char) -> int {
    if is_decimal_digit(c) {
        c as int - '0' as int
    } else if 'a' <= c <= 'z' {
        c as int - 'a' as int + 10
    } else {
        c as int - 'A' as int + 10
    }
}

/// Whether a character is a digit in a radix.
pub open spec fn is_digit(radix: NumberRadix, c: char) -> bool {
    match radix {
        NumberRadix::Binary => c == '0' || c == '1',
        NumberRadix::Octal => '0' <= c <= '7',
        NumberRadix::Decimal => is_decimal_digit(c),
        NumberRadix::Hex => is_decimal_digit(c) || 'a' <= c <= 'f' || 'A' <= c <= 'F',
    }
}

/// The line of a place in a text. Lines are counted from one.
pub open spec fn line_at(text: Seq<char>, i: int) -> int
    decreases i,
{
    if i <= 0 {
        1
    } else if text[i - 1] == '\n' {
        line_at(text, i - 1) + 1
    } else {
        line_at(text, i - 1)
    }
}

/// The column of a place in a text. Columns are counted from one.
pub open spec fn col_at(text: Seq<char>, i: int) -> int
    decreases i,
{
    if i <= 0 || text[i - 1] == '\n' {
        1
    } else {
        col_at(text, i - 1) + 1
    }
}

/// The region of a piece of a text.
pub open spec fn region(text: Seq<char>, start: int, end: int) -> Span {
    Span {
        line_start: line_at(text, start),
        line_end: line_at(text, end),
        col_start: col_at(text, start),
        col_end: col_at(text, end),
    }
}

/// A place is not further down or to the right than there are characters before it.
pub proof fn lemma_place_bounds(text: Seq<char>, i: int)
    requires
        0 <= i,
    ensures
        1 <= line_at(text, i) <= i + 1,
        1 <= col_at(text, i) <= i + 1,
    decreases i,
{
    if i > 0 {
        lemma_place_bounds(text, i - 1);
    }
}

/// What a stage of the lexer gives: the state after it, and what it read or reports.
pub struct Lexed<T> {
    pub state: LexState,
    pub result: Result<T, ErrorView>,
}

impl LexState {
    /// The character `i` places after the next one.
    pub open spec fn peek_at(self, i: int) -> Option<char> {
        if 0 <= self.index + i < self.text.len() {
            Some(self.text[self.index + i])
        } else {
            None
        }
    }

    /// The next character.
    pub open spec fn peek(self) -> Option<char> {
        self.peek_at(0)
    }

    /// Whether characters are left.
    pub open spec fn has_next(self) -> bool {
        self.index < self.text.len()
    }

    /// Whether the place is within the text, and its line and its column are counted.
    pub open spec fn end_counted(self) -> bool {
        &&& 0 <= self.index <= self.text.len()
        &&& self.span.line_end == line_at(self.text, self.index)
        &&& self.span.col_end == col_at(self.text, self.index)
    }

    /// Whether the start mark and the place are within the text, and the region between them is
    /// counted.
    pub open spec fn counted(self) -> bool {
        &&& 0 <= self.start <= self.index <= self.text.len()
        &&& self.span == region(self.text, self.start, self.index)
    }

    /// The state after the next character, if there is one.
    pub open spec fn advanced(self) -> LexState {
        match self.peek() {
            Some(c) => LexState {
                index: self.index + 1,
                span: if c == '\n' {
                    Span { line_end: self.span.line_end + 1, col_end: 1, ..self.span }
                } else {
                    Span { col_end: self.span.col_end + 1, ..self.span }
                },
                ..self
            },
            None => self,
        }
    }

    /// The state after the next `n` characters.
    pub open spec fn advanced_by(self, n: nat) -> LexState
        decreases n,
    {
        if n == 0 {
            self
        } else {
            self.advanced().advanced_by((n - 1) as nat)
        }
    }

    /// The state in which the next token begins here.
    pub open spec fn marked(self) -> LexState {
        LexState {
            start: self.index,
            span: Span {
                line_start: self.span.line_end,
                col_start: self.span.col_end,
                ..self.span
            },
            ..self
        }
    }

    /// The state back at the start of the current token.
    pub open spec fn rewound(self) -> LexState {
        LexState {
            index: self.start,
            span: Span {
                line_end: self.span.line_start,
                col_end: self.span.col_start,
                ..self.span
            },
            ..self
        }
    }

    /// A report on a region.
    pub open spec fn error_at(self, line_info: Span, msg: Seq<char>) -> ErrorView {
        ErrorView::LexerError { file_path: self.file_path, line_info, msg }
    }

    /// A report on the character read last.
    pub open spec fn error_cur(self, msg: Seq<char>) -> ErrorView {
        self.error_at(
            Span {
                line_start: self.span.line_end,
                line_end: self.span.line_end,
                col_start: self.span.col_end - 1,
                col_end: self.span.col_end,
            },
            msg,
        )
    }

    /// A report on the next character.
    pub open spec fn error_next(self, msg: Seq<char>) -> ErrorView {
        self.error_at(
            Span {
                line_start: self.span.line_end,
                line_end: self.span.line_end,
                col_start: self.span.col_end,
                col_end: self.span.col_end + 1,
            },
            msg,
        )
    }

    /// A note on where the current token begins.
    pub open spec fn note_at_start(self, msg: Seq<char>) -> ErrorView {
        ErrorView::LexerNote {
            file_path: self.file_path,
            line_info: Span {
                line_start: self.span.line_start,
                line_end: self.span.line_start,
                col_start: self.span.col_start,
                col_end: self.span.col_start + 1,
            },
            msg,
        }
    }

    /// Success in this state.
    pub open spec fn ok<T>(self, value: T) -> Lexed<T> {
        Lexed { state: self, result: Ok(value) }
    }

    /// Failure in this state.
    pub open spec fn fail<T>(self, error: ErrorView) -> Lexed<T> {
        Lexed { state: self, result: Err(error) }
    }

    /// The next character, which must be there.
    pub open spec fn char_read(self) -> Lexed<char> {
        match self.peek() {
            Some(c) => self.advanced().ok(c),
            None => self.fail(self.error_cur("unexpected end of file"@)),
        }
    }

    /// The state at the end of the line.
    pub open spec fn line_skipped(self) -> LexState
        decreases self.text.len() - self.index,
    {
        match self.peek() {
            Some(c) => if c == '\n' {
                self
            } else {
                self.advanced().line_skipped()
            },
            None => self,
        }
    }

    /// The state after a comment that is open `depth` times.
    pub open spec fn comment_skipped(self, depth: nat) -> Lexed<()>
        decreases self.text.len() - self.index,
    {
        if depth == 0 {
            self.ok(())
        } else {
            match self.peek() {
                Some(c) => if c == '/' && self.peek_at(1) == Some('*') {
                    self.advanced().advanced().comment_skipped(depth + 1)
                } else if c == '*' && self.peek_at(1) == Some('/') {
                    self.advanced().advanced().comment_skipped((depth - 1) as nat)
                } else {
                    self.advanced().comment_skipped(depth)
                },
                None => self.fail(
                    ErrorView::Errors(
                        seq![
                            self.error_next(
                                "expected end of multiline comment, comment depth: '"@ + decimal(
                                    depth,
                                ) + "'"@,
                            ),
                            self.note_at_start("comment starts here"@),
                        ],
                    ),
                ),
            }
        }
    }

    /// The state after blanks and comments, where the next token begins. At the end of the text
    /// nothing is marked.
    pub open spec fn blanks_skipped(self) -> Lexed<()>
        decreases self.text.len() - self.index,
    {
        match self.peek() {
            None => self.ok(()),
            Some(c) => if c == '/' && self.peek_at(1) == Some('/') {
                proof {
                    lemma_line_skipped(self.advanced().advanced());
                }
                self.advanced().advanced().line_skipped().blanks_skipped()
            } else if c == '/' && self.peek_at(1) == Some('*') {
                proof {
                    lemma_comment_skipped(self.marked().advanced().advanced(), 1);
                }
                let after = self.marked().advanced().advanced().comment_skipped(1);
                match after.result {
                    Ok(_) => after.state.blanks_skipped(),
                    Err(_) => after,
                }
            } else if is_blank(c) {
                self.advanced().blanks_skipped()
            } else {
                self.marked().ok(())
            },
        }
    }

    /// Whether the text goes on with `word`.
    pub open spec fn looking_at(self, word: Seq<char>) -> bool {
        &&& 0 <= self.index
        &&& self.index + word.len() <= self.text.len()
        &&& self.text.subrange(self.index, self.index + word.len()) == word
    }

    /// The state after `word`, if the text goes on with it.
    pub open spec fn word_skipped(self, word: Seq<char>) -> LexState {
        if self.looking_at(word) {
            self.advanced_by(word.len())
        } else {
            self
        }
    }

    /// The state after `word`, with which the text must go on.
    pub open spec fn word_expected(self, word: Seq<char>) -> Lexed<()> {
        if self.looking_at(word) {
            self.word_skipped(word).ok(())
        } else {
            self.fail(self.error_next("expected '"@ + word + "'"@))
        }
    }

    /// The state after the characters of an identifier.
    pub open spec fn word_chars_skipped(self) -> LexState
        decreases self.text.len() - self.index,
    {
        match self.peek() {
            Some(c) => if is_word_char(c) {
                self.advanced().word_chars_skipped()
            } else {
                self
            },
            None => self,
        }
    }

    /// The state after an identifier of which, with `do_start`, the first character is still to
    /// be read.
    pub open spec fn identifier_expected(self, do_start: bool) -> Lexed<()> {
        if do_start {
            match self.peek() {
                Some(c) => if c == '_' || is_letter(c) {
                    self.advanced().word_chars_skipped().ok(())
                } else {
                    self.advanced().fail(self.advanced().error_cur("expected identifier"@))
                },
                None => self.fail(self.error_cur("expected identifier"@)),
            }
        } else {
            self.word_chars_skipped().ok(())
        }
    }

    /// The digits from here on in a radix, read as the continuation of `number`.
    pub open spec fn digits_read(self, radix: NumberRadix, number: int) -> (LexState, int)
        decreases self.text.len() - self.index,
    {
        match self.peek() {
            Some(c) => if is_digit(radix, c) {
                self.advanced().digits_read(radix, number * radix_base(radix) + char_digit(c))
            } else {
                (self, number)
            },
            None => (self, number),
        }
    }

    /// A number of at least one digit.
    pub open spec fn number_expected(self, radix: NumberRadix) -> Lexed<int> {
        let first = self.char_read();
        match first.result {
            Err(e) => first.state.fail(e),
            Ok(c) => if is_digit(radix, c) {
                let (state, number) = first.state.digits_read(radix, char_digit(c));
                state.ok(number)
            } else {
                first.state.fail(first.state.error_cur("expected decimal digit"@))
            },
        }
    }

    /// The suffix of an integer, if one follows.
    pub open spec fn int_suffix(self) -> Option<TokenSuffix> {
        if self.looking_at("i8"@) {
            Some(TokenSuffix::I8)
        } else if self.looking_at("i16"@) {
            Some(TokenSuffix::I16)
        } else if self.looking_at("i32"@) {
            Some(TokenSuffix::I32)
        } else if self.looking_at("i64"@) {
            Some(TokenSuffix::I64)
        } else if self.looking_at("i128"@) {
            Some(TokenSuffix::I128)
        } else if self.looking_at("isize"@) {
            Some(TokenSuffix::ISize)
        } else if self.looking_at("u8"@) {
            Some(TokenSuffix::U8)
        } else if self.looking_at("u16"@) {
            Some(TokenSuffix::U16)
        } else if self.looking_at("u32"@) {
            Some(TokenSuffix::U32)
        } else if self.looking_at("u64"@) {
            Some(TokenSuffix::U64)
        } else if self.looking_at("u128"@) {
            Some(TokenSuffix::U128)
        } else if self.looking_at("usize"@) {
            Some(TokenSuffix::USize)
        } else {
            None
        }
    }

    /// The suffix of a float, if one follows.
    pub open spec fn float_suffix(self) -> Option<TokenSuffix> {
        if self.looking_at("f32"@) {
            Some(TokenSuffix::F32)
        } else if self.looking_at("f64"@) {
            Some(TokenSuffix::F64)
        } else {
            None
        }
    }

    /// The state after the suffix of a number.
    pub open spec fn suffix_skipped(self, suffix: Option<TokenSuffix>) -> LexState {
        match suffix {
            Some(s) => self.advanced_by(suffix_text(s).len()),
            None => self,
        }
    }

    /// The token from the start mark to here, and the state in which the next one begins.
    pub open spec fn token_made(
        self,
        kind: TokenKind,
        value: Option<TokenValueView>,
    ) -> Lexed<TokenView> {
        let text = self.text.subrange(self.start, self.index);
        self.marked().ok(
            TokenView {
                line_info: self.span,
                kind: if kind == TokenKind::Ident {
                    word_kind(text)
                } else {
                    kind
                },
                text,
                value,
            },
        )
    }

    /// The integer token whose digits have been read.
    pub open spec fn int_token(self, integral: int) -> Lexed<TokenView> {
        let suffix = self.int_suffix();
        self.suffix_skipped(suffix).token_made(
            TokenKind::IntLit,
            Some(TokenValueView::Int { integral, suffix }),
        )
    }

    /// The float token whose digits and exponent have been read.
    pub open spec fn float_token(
        self,
        integral: int,
        fractional: int,
        mantissa: int,
    ) -> Lexed<TokenView> {
        let suffix = self.float_suffix();
        self.suffix_skipped(suffix).token_made(
            TokenKind::FloatLit,
            Some(TokenValueView::Float { integral, fractional, mantissa, suffix }),
        )
    }

    /// The exponent of a float: its mark, a sign, and digits.
    pub open spec fn exponent_read(self, radix: NumberRadix) -> Lexed<int> {
        let sign = self.advanced().char_read();
        match sign.result {
            Err(e) => sign.state.fail(e),
            Ok(c) => if c != '+' && c != '-' {
                sign.state.fail(sign.state.error_cur("expected '+' or '-'"@))
            } else {
                let digits = sign.state.number_expected(radix);
                match digits.result {
                    Err(e) => digits.state.fail(e),
                    Ok(n) => digits.state.ok(
                        if c == '-' {
                            -n
                        } else {
                            n
                        },
                    ),
                }
            },
        }
    }

    /// A number token: an integer, or a float whose exponent is marked by `exp`.
    pub open spec fn number_token(self, radix: NumberRadix, exp: char) -> Lexed<TokenView> {
        let whole = self.number_expected(radix);
        match whole.result {
            Err(e) => whole.state.fail(e),
            Ok(integral) => match whole.state.peek() {
                None => whole.state.int_token(integral),
                Some(c) => if c == '.' {
                    let part = whole.state.advanced().number_expected(radix);
                    match part.result {
                        Err(e) => part.state.fail(e),
                        Ok(fractional) => match part.state.peek() {
                            Some(c) if lower_case(c) == lower_case(exp) => {
                                let power = part.state.exponent_read(radix);
                                match power.result {
                                    Err(e) => power.state.fail(e),
                                    Ok(mantissa) => power.state.float_token(
                                        integral,
                                        fractional,
                                        mantissa,
                                    ),
                                }
                            },
                            _ => part.state.float_token(integral, fractional, 0),
                        },
                    }
                } else if c == exp {
                    let power = whole.state.exponent_read(radix);
                    match power.result {
                        Err(e) => power.state.fail(e),
                        Ok(mantissa) => power.state.float_token(integral, 0, mantissa),
                    }
                } else {
                    whole.state.int_token(integral)
                },
            },
        }
    }

    /// An integer token in a radix other than decimal, after the mark of the radix.
    pub open spec fn radix_int_token(self, radix: NumberRadix) -> Lexed<TokenView> {
        let digits = self.number_expected(radix);
        match digits.result {
            Err(e) => digits.state.fail(e),
            Ok(integral) => digits.state.int_token(integral),
        }
    }

    /// The state before the character read last, which did not end a line.
    pub open spec fn stepped_back(self) -> LexState {
        LexState {
            index: self.index - 1,
            span: Span { col_end: self.span.col_end - 1, ..self.span },
            ..self
        }
    }

    /// The token that begins with the digit `c`, which has been read.
    pub open spec fn digit_token(self, c: char) -> Lexed<TokenView> {
        let mark = if c == '0' {
            self.peek()
        } else {
            None
        };
        if mark == Some('b') || mark == Some('B') {
            self.advanced().radix_int_token(NumberRadix::Binary)
        } else if mark == Some('o') || mark == Some('O') {
            self.advanced().radix_int_token(NumberRadix::Octal)
        } else if mark == Some('x') || mark == Some('X') {
            self.advanced().number_token(NumberRadix::Hex, 'p')
        } else {
            self.stepped_back().number_token(NumberRadix::Decimal, 'e')
        }
    }

    /// The character that `\\x` and two digits stand for.
    pub open spec fn byte_escape(self) -> Lexed<char> {
        let first = self.char_read();
        match first.result {
            Err(e) => first.state.fail(e),
            Ok(high) => if !is_digit(NumberRadix::Octal, high) {
                first.state.fail(first.state.error_cur("expected octal digit"@))
            } else {
                let second = first.state.char_read();
                match second.result {
                    Err(e) => second.state.fail(e),
                    Ok(low) => if !is_digit(NumberRadix::Hex, low) {
                        second.state.fail(second.state.error_cur("expected hex digit"@))
                    } else {
                        second.state.ok((char_digit(high) * 16 + char_digit(low)) as char)
                    },
                }
            },
        }
    }

    /// The hexadecimal digits of a code point, of which `times` have been read and give `number`:
    /// up to six, or up to the closing brace.
    pub open spec fn code_digits(self, number: int, times: int) -> Lexed<(int, int)>
        decreases 6 - times,
    {
        if times >= 6 {
            self.ok((number, times))
        } else {
            match self.peek() {
                None => self.fail(self.error_cur("unexpected end of file"@)),
                Some(c) => if c == '}' {
                    self.ok((number, times))
                } else if !is_digit(NumberRadix::Hex, c) {
                    self.fail(self.error_next("expected hex digit"@))
                } else {
                    self.advanced().code_digits(number * 16 + char_digit(c), times + 1)
                },
            }
        }
    }

    /// The character that a code point in braces stands for.
    pub open spec fn code_escape(self) -> Lexed<char> {
        let open = self.word_expected("{"@);
        match open.result {
            Err(e) => open.state.fail(e),
            Ok(_) => {
                let digits = open.state.code_digits(0, 0);
                match digits.result {
                    Err(e) => digits.state.fail(e),
                    Ok((number, times)) => if times < 1 {
                        digits.state.fail(digits.state.error_next("expected hex digit"@))
                    } else if !is_code_point(number) {
                        digits.state.fail(
                            digits.state.error_at(
                                Span {
                                    line_start: open.state.span.line_end,
                                    line_end: digits.state.span.line_end,
                                    col_start: open.state.span.col_end,
                                    col_end: digits.state.span.col_end,
                                },
                                "invalid value of unicode codepoint"@,
                            ),
                        )
                    } else {
                        let close = digits.state.word_expected("}"@);
                        match close.result {
                            Err(e) => close.state.fail(e),
                            Ok(_) => close.state.ok(number as char),
                        }
                    },
                }
            },
        }
    }

    /// The state after ASCII white space.
    pub open spec fn ascii_blanks_skipped(self) -> LexState
        decreases self.text.len() - self.index,
    {
        match self.peek() {
            Some(c) => if is_ascii_blank(c) {
                self.advanced().ascii_blanks_skipped()
            } else {
                self
            },
            None => self,
        }
    }

    /// The character that an escape sequence stands for, after its backslash.
    pub open spec fn escape_read(self) -> Lexed<char> {
        let first = self.char_read();
        match first.result {
            Err(e) => first.state.fail(e),
            Ok(c) => match simple_escape(c) {
                Some(unescaped) => first.state.ok(unescaped),
                None => if c == 'x' {
                    first.state.byte_escape()
                } else if c == 'u' {
                    first.state.code_escape()
                } else if c == '\n' {
                    first.state.ascii_blanks_skipped().ok(c)
                } else {
                    first.state.fail(
                        first.state.error_cur(
                            "invalid escape sequence '\\"@ + seq![c] + "'"@,
                        ),
                    )
                },
            },
        }
    }

    /// The rest of a string up to `quantifier`, of which `text` has been read.
    pub open spec fn string_rest(
        self,
        quantifier: char,
        multiline: bool,
        text: Seq<char>,
    ) -> Lexed<Seq<char>>
        decreases self.text.len() - self.index,
    {
        match self.peek() {
            None => self.fail(
                self.error_next("expected end of string <"@ + seq![quantifier] + ">"@),
            ),
            Some(c) => if !multiline && c == '\n' {
                self.fail(
                    self.error_next("newlines are not allowed in single-line strings"@),
                )
            } else if c == '\\' {
                proof {
                    lemma_escape_read(self.advanced());
                }
                let escape = self.advanced().escape_read();
                match escape.result {
                    Err(e) => escape.state.fail(e),
                    Ok(unescaped) => escape.state.string_rest(
                        quantifier,
                        multiline,
                        text.push(unescaped),
                    ),
                }
            } else if c == quantifier {
                self.advanced().ok(text)
            } else {
                self.advanced().string_rest(quantifier, multiline, text.push(c))
            },
        }
    }

    /// A string up to `quantifier`; with `do_start`, the opening mark is still to be read.
    pub open spec fn string_expected(
        self,
        prefix: Seq<char>,
        quantifier: char,
        multiline: bool,
        do_start: bool,
    ) -> Lexed<Seq<char>> {
        if do_start && self.peek() != Some(quantifier) {
            self.advanced().fail(
                self.advanced().error_cur(
                    "expected <"@ + prefix + seq![quantifier] + "..."@ + seq![quantifier] + ">"@,
                ),
            )
        } else if do_start {
            self.advanced().string_rest(quantifier, multiline, seq![])
        } else {
            self.string_rest(quantifier, multiline, seq![])
        }
    }

    /// The string token after its opening mark.
    pub open spec fn string_token(self, quantifier: char, multiline: bool) -> Lexed<TokenView> {
        let string = self.string_expected(""@, quantifier, multiline, false);
        match string.result {
            Err(e) => string.state.fail(e),
            Ok(text) => string.state.token_made(
                TokenKind::StringLit,
                Some(TokenValueView::String(text)),
            ),
        }
    }

    /// The word token of which the first character has been read.
    pub open spec fn word_token(self, kind: TokenKind, do_start: bool) -> Lexed<TokenView> {
        let word = self.identifier_expected(do_start);
        match word.result {
            Err(e) => word.state.fail(e),
            Ok(_) => word.state.token_made(kind, None),
        }
    }

    /// The token `long` if `word` follows, else the token `short`.
    pub open spec fn longest_token(
        self,
        word: Seq<char>,
        long: TokenKind,
        short: TokenKind,
    ) -> Lexed<TokenView> {
        if self.looking_at(word) {
            self.word_skipped(word).token_made(long, None)
        } else {
            self.token_made(short, None)
        }
    }

    /// The token that begins with the character `c`, which has been read.
    pub open spec fn token_from(self, c: char) -> Lexed<TokenView> {
        match single_kind(c) {
            Some(kind) => self.token_made(kind, None),
            None => if c == '<' {
                if self.looking_at("="@) {
                    self.word_skipped("="@).token_made(TokenKind::LessEq, None)
                } else {
                    self.longest_token("<"@, TokenKind::ShiftLeft, TokenKind::LAngle)
                }
            } else if c == '>' {
                if self.looking_at("="@) {
                    self.word_skipped("="@).token_made(TokenKind::GreaterEq, None)
                } else {
                    self.longest_token(">"@, TokenKind::ShiftRight, TokenKind::RAngle)
                }
            } else if c == '=' {
                self.longest_token("="@, TokenKind::EqEq, TokenKind::Equal)
            } else if c == '+' {
                if self.looking_at("%"@) {
                    self.word_skipped("%"@).token_made(TokenKind::PlusPercent, None)
                } else {
                    self.longest_token(":"@, TokenKind::PlusColon, TokenKind::Plus)
                }
            } else if c == '-' {
                if self.looking_at(">"@) {
                    self.word_skipped(">"@).token_made(TokenKind::Arrow, None)
                } else if self.looking_at("%"@) {
                    self.word_skipped("%"@).token_made(TokenKind::MinusPercent, None)
                } else {
                    self.longest_token(":"@, TokenKind::MinusColon, TokenKind::Minus)
                }
            } else if c == '!' {
                let rest = self.word_expected("="@);
                match rest.result {
                    Err(e) => rest.state.fail(e),
                    Ok(_) => rest.state.token_made(TokenKind::NotEq, None),
                }
            } else if c == '#' {
                self.word_token(TokenKind::Ident, true)
            } else if c == '$' {
                self.word_token(TokenKind::Label, true)
            } else if c == '_' || is_letter(c) {
                self.word_token(TokenKind::Ident, false)
            } else if c == '"' {
                self.string_token('"', false)
            } else if c == '`' {
                self.string_token('`', true)
            } else if is_decimal_digit(c) {
                self.digit_token(c)
            } else {
                self.fail(self.error_cur("unexpected char '"@ + seq![c] + "'"@))
            },
        }
    }

    /// The next token, from the start mark on.
    pub open spec fn token_read(self) -> Lexed<TokenView> {
        let blanks = self.rewound().blanks_skipped();
        match blanks.result {
            Err(e) => blanks.state.fail(e),
            Ok(_) => {
                let first = blanks.state.char_read();
                match first.result {
                    Err(e) => first.state.fail(e),
                    Ok(c) => first.state.token_from(c),
                }
            },
        }
    }

    /// The next token, and the state after the blanks and comments that follow it.
    pub open spec fn next_token(self) -> Lexed<TokenView> {
        let token = self.token_read();
        match token.result {
            Err(e) => token,
            Ok(t) => {
                let blanks = token.state.blanks_skipped();
                match blanks.result {
                    Err(e) => blanks.state.fail(e),
                    Ok(_) => blanks.state.ok(t),
                }
            },
        }
    }
}

/// How a suffix is written.
pub open spec fn suffix_text(suffix: TokenSuffix) -> Seq<char> {
    match suffix {
        TokenSuffix::I8 => "i8"@,
        TokenSuffix::I16 => "i16"@,
        TokenSuffix::I32 => "i32"@,
        TokenSuffix::I64 => "i64"@,
        TokenSuffix::I128 => "i128"@,
        TokenSuffix::ISize => "isize"@,
        TokenSuffix::U8 => "u8"@,
        TokenSuffix::U16 => "u16"@,
        TokenSuffix::U32 => "u32"@,
        TokenSuffix::U64 => "u64"@,
        TokenSuffix::U128 => "u128"@,
        TokenSuffix::USize => "usize"@,
        TokenSuffix::F32 => "f32"@,
        TokenSuffix::F64 => "f64"@,
    }
}

/// An ASCII letter in lower case; other characters as they are.
pub open spec fn lower_case(c: char) -> char {
    if 'A' <= c <= 'Z' {
        (c as int + 32) as char
    } else {
        c
    }
}

/// Reading a character keeps lines and columns counted.
pub proof fn lemma_advanced(s: LexState)
    ensures
        s.end_counted() ==> s.advanced().end_counted(),
{
}

/// Skipping a line stays in the text and moves on.
pub proof fn lemma_line_skipped(s: LexState)
    ensures
        s.line_skipped().text == s.text,
        s.line_skipped().file_path == s.file_path,
        s.line_skipped().index >= s.index,
        s.index <= s.text.len() ==> s.line_skipped().index <= s.text.len(),
        s.line_skipped().start == s.start,
        s.line_skipped().span.line_start == s.span.line_start,
        s.line_skipped().span.col_start == s.span.col_start,
        s.end_counted() ==> s.line_skipped().end_counted(),
    decreases s.text.len() - s.index,
{
    match s.peek() {
        Some(c) => {
            if c != '\n' {
                lemma_line_skipped(s.advanced());
            }
        },
        None => {},
    }
}

/// Skipping a comment stays in the text and moves on.
pub proof fn lemma_comment_skipped(s: LexState, depth: nat)
    ensures
        s.comment_skipped(depth).state.text == s.text,
        s.comment_skipped(depth).state.file_path == s.file_path,
        s.comment_skipped(depth).state.index >= s.index,
        s.index <= s.text.len() ==> s.comment_skipped(depth).state.index <= s.text.len(),
        s.comment_skipped(depth).state.start == s.start,
        s.comment_skipped(depth).state.span.line_start == s.span.line_start,
        s.comment_skipped(depth).state.span.col_start == s.span.col_start,
        s.end_counted() ==> s.comment_skipped(depth).state.end_counted(),
    decreases s.text.len() - s.index,
{
    lemma_advanced(s);
    lemma_advanced(s.advanced());
    if depth > 0 {
        match s.peek() {
            Some(c) => {
                if c == '/' && s.peek_at(1) == Some('*') {
                    lemma_comment_skipped(s.advanced().advanced(), depth + 1);
                } else if c == '*' && s.peek_at(1) == Some('/') {
                    lemma_comment_skipped(s.advanced().advanced(), (depth - 1) as nat);
                } else {
                    lemma_comment_skipped(s.advanced(), depth);
                }
            },
            None => {},
        }
    }
}


/// Whether a number is a Unicode scalar value.
pub open spec fn is_code_point(number: int) -> bool {
    0 <= number <= 0xd7ff || 0xe000 <= number <= 0x10ffff
}

/// Whether a character is ASCII white space.
pub open spec fn is_ascii_blank(c: char) -> bool {
    c == ' ' || c == '\t' || c == '\n' || c == '\u{c}' || c == '\r'
}

/// The character that a backslash and `c` stand for on their own.
pub open spec fn simple_escape(c: char) -> Option<char> {
    if c == '0' {
        Some('\0')
    } else if c == 'a' {
        Some('\u{7}')
    } else if c == 'b' {
        Some('\u{8}')
    } else if c == 'e' {
        Some('\u{1b}')
    } else if c == 'f' {
        Some('\u{c}')
    } else if c == 'n' {
        Some('\n')
    } else if c == 'r' {
        Some('\r')
    } else if c == 't' {
        Some('\t')
    } else if c == 'v' {
        Some('\u{b}')
    } else if c == '"' || c == '\'' || c == '`' || c == '\\' {
        Some(c)
    } else {
        None
    }
}

/// The kind of a token that consists of one character and is the prefix of no other.
pub open spec fn single_kind(c: char) -> Option<TokenKind> {
    if c == '(' {
        Some(TokenKind::LParen)
    } else if c == ')' {
        Some(TokenKind::RParen)
    } else if c == '{' {
        Some(TokenKind::LBrace)
    } else if c == '}' {
        Some(TokenKind::RBrace)
    } else if c == '[' {
        Some(TokenKind::LBrack)
    } else if c == ']' {
        Some(TokenKind::RBrack)
    } else if c == ',' {
        Some(TokenKind::Comma)
    } else if c == ':' {
        Some(TokenKind::Colon)
    } else if c == ';' {
        Some(TokenKind::Semicolon)
    } else if c == '.' {
        Some(TokenKind::Dot)
    } else if c == '~' {
        Some(TokenKind::Tilde)
    } else if c == '*' {
        Some(TokenKind::Star)
    } else if c == '/' {
        Some(TokenKind::Slash)
    } else if c == '%' {
        Some(TokenKind::Percent)
    } else if c == '&' {
        Some(TokenKind::Ampersand)
    } else if c == '^' {
        Some(TokenKind::Caret)
    } else if c == '|' {
        Some(TokenKind::Pipe)
    } else {
        None
    }
}

/// Whether `t` is `s` after reading some characters: the text, the file and the start mark are
/// the same, and the place moves on within the text.
pub open spec fn reads_on(s: LexState, t: LexState) -> bool {
    &&& t.text == s.text
    &&& t.file_path == s.file_path
    &&& t.start == s.start
    &&& t.span.line_start == s.span.line_start
    &&& t.span.col_start == s.span.col_start
    &&& s.index <= t.index
    &&& (s.index <= s.text.len() ==> t.index <= s.text.len())
    &&& (s.end_counted() ==> t.end_counted())
}

pub proof fn lemma_advanced_by(s: LexState, n: nat)
    ensures
        reads_on(s, s.advanced_by(n)),
        0 <= s.index && s.index + n <= s.text.len() ==> s.advanced_by(n).index == s.index + n,
    decreases n,
{
    if n > 0 {
        lemma_advanced_by(s.advanced(), (n - 1) as nat);
    }
}

pub proof fn lemma_ascii_blanks(s: LexState)
    ensures
        reads_on(s, s.ascii_blanks_skipped()),
    decreases s.text.len() - s.index,
{
    match s.peek() {
        Some(c) => {
            if is_ascii_blank(c) {
                lemma_ascii_blanks(s.advanced());
            }
        },
        None => {},
    }
}

pub proof fn lemma_code_digits(s: LexState, number: int, times: int)
    ensures
        reads_on(s, s.code_digits(number, times).state),
    decreases 6 - times,
{
    if times < 6 {
        match s.peek() {
            Some(c) => {
                if c != '}' && is_digit(NumberRadix::Hex, c) {
                    lemma_code_digits(s.advanced(), number * 16 + char_digit(c), times + 1);
                }
            },
            None => {},
        }
    }
}

/// Reading an escape sequence moves on within the text.
pub proof fn lemma_escape_read(s: LexState)
    ensures
        reads_on(s, s.escape_read().state),
{
    let first = s.char_read();
    lemma_advanced(s);
    lemma_advanced(first.state);
    lemma_advanced(first.state.advanced());
    lemma_ascii_blanks(first.state);
    lemma_advanced_by(first.state, "{"@.len());
    let open = first.state.word_expected("{"@);
    lemma_code_digits(open.state, 0, 0);
    let digits = open.state.code_digits(0, 0);
    lemma_advanced_by(digits.state, "}"@.len());
}

/// Skipping blanks and comments moves on within the text, and the start mark does not move back.
pub proof fn lemma_blanks_skipped(s: LexState)
    requires
        0 <= s.start <= s.index <= s.text.len(),
    ensures
        s.blanks_skipped().state.text == s.text,
        s.blanks_skipped().state.file_path == s.file_path,
        s.index <= s.blanks_skipped().state.index <= s.text.len(),
        s.start <= s.blanks_skipped().state.start <= s.blanks_skipped().state.index,
        s.blanks_skipped().result is Ok && s.blanks_skipped().state.index < s.text.len()
            ==> s.blanks_skipped().state.start == s.blanks_skipped().state.index,
        s.counted() ==> s.blanks_skipped().state.counted(),
    decreases s.text.len() - s.index,
{
    match s.peek() {
        None => {},
        Some(c) => {
            lemma_advanced(s);
            lemma_advanced(s.advanced());
            if c == '/' && s.peek_at(1) == Some('/') {
                lemma_line_skipped(s.advanced().advanced());
                lemma_blanks_skipped(s.advanced().advanced().line_skipped());
            } else if c == '/' && s.peek_at(1) == Some('*') {
                lemma_advanced(s.marked());
                lemma_advanced(s.marked().advanced());
                lemma_comment_skipped(s.marked().advanced().advanced(), 1);
                let after = s.marked().advanced().advanced().comment_skipped(1);
                if after.result is Ok {
                    lemma_blanks_skipped(after.state);
                }
            } else if is_blank(c) {
                lemma_blanks_skipped(s.advanced());
            }
        },
    }
}

proof fn lemma_word_chars(s: LexState)
    ensures
        reads_on(s, s.word_chars_skipped()),
    decreases s.text.len() - s.index,
{
    match s.peek() {
        Some(c) => {
            if is_word_char(c) {
                lemma_word_chars(s.advanced());
            }
        },
        None => {},
    }
}

proof fn lemma_digits(s: LexState, radix: NumberRadix, number: int)
    ensures
        reads_on(s, s.digits_read(radix, number).0),
    decreases s.text.len() - s.index,
{
    match s.peek() {
        Some(c) => {
            if is_digit(radix, c) {
                lemma_digits(s.advanced(), radix, number * radix_base(radix) + char_digit(c));
            }
        },
        None => {},
    }
}

proof fn lemma_number(s: LexState, radix: NumberRadix)
    ensures
        reads_on(s, s.number_expected(radix).state),
        s.number_expected(radix).result is Ok ==> s.number_expected(radix).state.index > s.index,
{
    let first = s.char_read();
    match first.result {
        Err(_) => {},
        Ok(c) => {
            lemma_digits(first.state, radix, char_digit(c));
        },
    }
}

proof fn lemma_exponent(s: LexState, radix: NumberRadix)
    ensures
        reads_on(s, s.exponent_read(radix).state),
{
    lemma_advanced(s);
    lemma_advanced(s.advanced());
    let sign = s.advanced().char_read();
    lemma_number(sign.state, radix);
}

proof fn lemma_string_rest(s: LexState, quantifier: char, multiline: bool, text: Seq<char>)
    ensures
        reads_on(s, s.string_rest(quantifier, multiline, text).state),
    decreases s.text.len() - s.index,
{
    match s.peek() {
        None => {},
        Some(c) => {
            if !multiline && c == '\n' {
            } else if c == '\\' {
                lemma_escape_read(s.advanced());
                let escape = s.advanced().escape_read();
                match escape.result {
                    Err(_) => {},
                    Ok(unescaped) => {
                        let longer = text.push(unescaped);
                        lemma_string_rest(escape.state, quantifier, multiline, longer);
                    },
                }
            } else if c == quantifier {
            } else {
                lemma_string_rest(s.advanced(), quantifier, multiline, text.push(c));
            }
        },
    }
}

/// Whether a token, if one was read, is the text from the start mark of `s` up to the place where
/// the next token begins.
pub open spec fn reads_token(s: LexState, r: Lexed<TokenView>) -> bool {
    &&& r.state.text == s.text
    &&& r.state.file_path == s.file_path
    &&& s.index <= r.state.index <= s.text.len()
    &&& r.result matches Ok(t) ==> {
        &&& r.state.start == r.state.index
        &&& t.text == s.text.subrange(s.start, r.state.index)
        &&& t.line_info.line_start == s.span.line_start
        &&& t.line_info.col_start == s.span.col_start
        &&& t.line_info.line_end == r.state.span.line_end
        &&& t.line_info.col_end == r.state.span.col_end
        &&& s.counted() ==> r.state.counted()
    }
}

proof fn lemma_int_token(s: LexState, at: LexState, integral: int)
    requires
        reads_on(s, at),
        0 <= s.start <= s.index <= s.text.len(),
    ensures
        reads_token(s, at.int_token(integral)),
{
    let suffix = at.int_suffix();
    if let Some(given) = suffix {
        lemma_advanced_by(at, suffix_text(given).len());
    }
}

proof fn lemma_float_token(s: LexState, at: LexState, integral: int, fractional: int, mantissa: int)
    requires
        reads_on(s, at),
        0 <= s.start <= s.index <= s.text.len(),
    ensures
        reads_token(s, at.float_token(integral, fractional, mantissa)),
{
    let suffix = at.float_suffix();
    if let Some(given) = suffix {
        lemma_advanced_by(at, suffix_text(given).len());
    }
}

proof fn lemma_number_token(s: LexState, at: LexState, radix: NumberRadix, exp: char)
    requires
        0 <= s.start <= s.index <= s.text.len(),
        reads_on(s, at) || (at == s.stepped_back() && s.start < s.index && s.index > 0
            && s.text[s.index - 1] != '\n'),
    ensures
        reads_token(s, at.number_token(radix, exp)),
{
    lemma_number(at, radix);
    let whole = at.number_expected(radix);
    if let Ok(integral) = whole.result {
        assert(reads_on(s, whole.state));
        lemma_int_token(s, whole.state, integral);
        lemma_number(whole.state.advanced(), radix);
        lemma_exponent(whole.state, radix);
        let power = whole.state.exponent_read(radix);
        if let Ok(mantissa) = power.result {
            lemma_float_token(s, power.state, integral, 0, mantissa);
        }
        let part = whole.state.advanced().number_expected(radix);
        if let Ok(fractional) = part.result {
            lemma_float_token(s, part.state, integral, fractional, 0);
            lemma_exponent(part.state, radix);
            let power = part.state.exponent_read(radix);
            if let Ok(mantissa) = power.result {
                lemma_float_token(s, power.state, integral, fractional, mantissa);
            }
        }
    } else {
        assert(at.peek() is Some ==> at.advanced().index == at.index + 1);
    }
}

proof fn lemma_token_made(
    s: LexState,
    at: LexState,
    kind: TokenKind,
    value: Option<TokenValueView>,
)
    requires
        0 <= s.start <= s.index <= s.text.len(),
        reads_on(s, at),
    ensures
        reads_token(s, at.token_made(kind, value)),
{
}

proof fn lemma_longest_token(s: LexState, word: Seq<char>, long: TokenKind, short: TokenKind)
    requires
        0 <= s.start <= s.index <= s.text.len(),
    ensures
        reads_token(s, s.longest_token(word, long, short)),
        reads_token(s, s.word_skipped(word).token_made(long, None)),
{
    lemma_advanced_by(s, word.len());
    lemma_token_made(s, s, short, None);
    lemma_token_made(s, s.word_skipped(word), long, None);
}

proof fn lemma_word_token(s: LexState, kind: TokenKind, do_start: bool)
    requires
        0 <= s.start <= s.index <= s.text.len(),
    ensures
        reads_token(s, s.word_token(kind, do_start)),
{
    lemma_advanced(s);
    lemma_word_chars(s);
    lemma_word_chars(s.advanced());
    lemma_token_made(s, s.word_chars_skipped(), kind, None);
    lemma_token_made(s, s.advanced().word_chars_skipped(), kind, None);
}

proof fn lemma_string_token(s: LexState, quantifier: char, multiline: bool)
    requires
        0 <= s.start <= s.index <= s.text.len(),
    ensures
        reads_token(s, s.string_token(quantifier, multiline)),
{
    lemma_string_rest(s, quantifier, multiline, seq![]);
    let rest = s.string_rest(quantifier, multiline, seq![]);
    if let Ok(text) = rest.result {
        lemma_token_made(
            s,
            rest.state,
            TokenKind::StringLit,
            Some(TokenValueView::String(text)),
        );
    }
}

proof fn lemma_radix_int_token(s: LexState, radix: NumberRadix)
    requires
        0 <= s.start <= s.index <= s.text.len(),
    ensures
        reads_token(s, s.advanced().radix_int_token(radix)),
{
    lemma_advanced(s);
    lemma_number(s.advanced(), radix);
    let digits = s.advanced().number_expected(radix);
    if let Ok(integral) = digits.result {
        lemma_int_token(s, digits.state, integral);
    }
}

proof fn lemma_digit_token(s: LexState, c: char)
    requires
        0 <= s.start < s.index <= s.text.len(),
        s.text[s.index - 1] == c,
        is_decimal_digit(c),
    ensures
        reads_token(s, s.digit_token(c)),
{
    lemma_advanced(s);
    lemma_number_token(s, s.stepped_back(), NumberRadix::Decimal, 'e');
    lemma_number_token(s, s.advanced(), NumberRadix::Hex, 'p');
    lemma_radix_int_token(s, NumberRadix::Binary);
    lemma_radix_int_token(s, NumberRadix::Octal);
}

proof fn lemma_token_from(s: LexState, c: char)
    requires
        0 <= s.start < s.index <= s.text.len(),
        s.text[s.index - 1] == c,
    ensures
        reads_token(s, s.token_from(c)),
{
    if let Some(kind) = single_kind(c) {
        lemma_token_made(s, s, kind, None);
    } else if c == '<' {
        lemma_longest_token(s, "="@, TokenKind::LessEq, TokenKind::LAngle);
        lemma_longest_token(s, "<"@, TokenKind::ShiftLeft, TokenKind::LAngle);
    } else if c == '>' {
        lemma_longest_token(s, "="@, TokenKind::GreaterEq, TokenKind::RAngle);
        lemma_longest_token(s, ">"@, TokenKind::ShiftRight, TokenKind::RAngle);
    } else if c == '=' {
        lemma_longest_token(s, "="@, TokenKind::EqEq, TokenKind::Equal);
    } else if c == '+' {
        lemma_longest_token(s, "%"@, TokenKind::PlusPercent, TokenKind::Plus);
        lemma_longest_token(s, ":"@, TokenKind::PlusColon, TokenKind::Plus);
    } else if c == '-' {
        lemma_longest_token(s, ">"@, TokenKind::Arrow, TokenKind::Minus);
        lemma_longest_token(s, "%"@, TokenKind::MinusPercent, TokenKind::Minus);
        lemma_longest_token(s, ":"@, TokenKind::MinusColon, TokenKind::Minus);
    } else if c == '!' {
        lemma_longest_token(s, "="@, TokenKind::NotEq, TokenKind::NotEq);
    } else if c == '#' {
        lemma_word_token(s, TokenKind::Ident, true);
    } else if c == '$' {
        lemma_word_token(s, TokenKind::Label, true);
    } else if c == '_' || is_letter(c) {
        lemma_word_token(s, TokenKind::Ident, false);
    } else if c == '"' {
        lemma_string_token(s, '"', false);
    } else if c == '`' {
        lemma_string_token(s, '`', true);
    } else if is_decimal_digit(c) {
        lemma_digit_token(s, c);
    }
}

/// The place where the next token begins.
pub open spec fn token_start(s: LexState) -> int {
    s.rewound().blanks_skipped().state.index
}

/// A token is a piece of the text that is not empty and begins after the blanks and comments that
/// follow the token before. Its region is that of the piece: lines and columns count what was
/// read.
pub proof fn law_token_text(s: LexState)
    requires
        0 <= s.start <= s.index <= s.text.len(),
    ensures
        s.start <= token_start(s) <= s.text.len(),
        s.token_read().result matches Ok(t) ==> {
            &&& token_start(s) < s.token_read().state.index <= s.text.len()
            &&& t.text == s.text.subrange(token_start(s), s.token_read().state.index)
            &&& t.line_info.line_start == s.rewound().blanks_skipped().state.span.line_end
            &&& t.line_info.col_start == s.rewound().blanks_skipped().state.span.col_end
            &&& t.line_info.line_end == s.token_read().state.span.line_end
            &&& t.line_info.col_end == s.token_read().state.span.col_end
            &&& s.counted() ==> {
                &&& t.line_info == region(s.text, token_start(s), s.token_read().state.index)
                &&& s.token_read().state.counted()
            }
        },
        s.token_read().state.text == s.text,
        s.token_read().result is Ok ==> s.token_read().state.start == s.token_read().state.index,
{
    lemma_blanks_skipped(s.rewound());
    lemma_blanks_marked(s.rewound());
    let blanks = s.rewound().blanks_skipped();
    if blanks.result is Ok {
        let first = blanks.state.char_read();
        if let Ok(c) = first.result {
            lemma_token_from(first.state, c);
        }
    }
}

/// Where a token begins, the start mark and the place are the same.
proof fn lemma_blanks_marked(s: LexState)
    requires
        0 <= s.start <= s.index <= s.text.len(),
    ensures
        s.blanks_skipped().result is Ok && s.blanks_skipped().state.index < s.text.len() ==> {
            &&& s.blanks_skipped().state.span.line_start == s.blanks_skipped().state.span.line_end
            &&& s.blanks_skipped().state.span.col_start == s.blanks_skipped().state.span.col_end
        },
    decreases s.text.len() - s.index,
{
    match s.peek() {
        None => {},
        Some(c) => {
            if c == '/' && s.peek_at(1) == Some('/') {
                lemma_line_skipped(s.advanced().advanced());
                lemma_blanks_marked(s.advanced().advanced().line_skipped());
            } else if c == '/' && s.peek_at(1) == Some('*') {
                lemma_comment_skipped(s.marked().advanced().advanced(), 1);
                let after = s.marked().advanced().advanced().comment_skipped(1);
                if after.result is Ok {
                    lemma_blanks_marked(after.state);
                }
            } else if is_blank(c) {
                lemma_blanks_marked(s.advanced());
            }
        },
    }
}

/// Reading a token goes on in the same text: the next token begins after it.
pub proof fn law_next_token_goes_on(s: LexState)
    requires
        0 <= s.start <= s.index <= s.text.len(),
    ensures
        s.next_token().result is Ok ==> {
            &&& s.next_token().state.text == s.text
            &&& s.start < s.next_token().state.start <= s.next_token().state.index
            &&& s.next_token().state.index <= s.text.len()
        },
{
    law_token_text(s);
    if s.token_read().result is Ok {
        lemma_blanks_skipped(s.token_read().state);
    }
}

/// The number that decimal digits stand for after a number that was read before them.
pub open spec fn digits_value(text: Seq<char>, number: int) -> int
    decreases text.len(),
{
    if text.len() == 0 {
        number
    } else {
        digits_value(text.drop_last(), number) * 10 + char_digit(text.last())
    }
}

proof fn lemma_digits_value_first(text: Seq<char>, number: int)
    requires
        text.len() > 0,
    ensures
        digits_value(text, number) == digits_value(
            text.drop_first(),
            number * 10 + char_digit(text[0]),
        ),
    decreases text.len(),
{
    if text.len() == 1 {
        assert(text.drop_last() =~= Seq::<char>::empty());
        assert(digits_value(text.drop_last(), number) == number);
    } else {
        lemma_digits_value_first(text.drop_last(), number);
        assert(text.drop_first().last() == text.last());
        assert(text.drop_last().drop_first() =~= text.drop_first().drop_last());
    }
}

proof fn lemma_digits_value_of_decimal(n: nat)
    ensures
        digits_value(decimal(n), 0) == n,
    decreases n,
{
    if n < 10 {
        assert(decimal(n).drop_last() =~= Seq::<char>::empty());
        assert(digits_value(decimal(n).drop_last(), 0) == 0);
    } else {
        lemma_digits_value_of_decimal(n / 10);
        assert(decimal(n).drop_last() =~= decimal(n / 10));
    }
}

proof fn lemma_all_digits_read(s: LexState, number: int)
    requires
        0 <= s.index <= s.text.len(),
        forall|k: int| 0 <= k < s.text.len() ==> '0' <= #[trigger] s.text[k] <= '9',
    ensures
        s.digits_read(NumberRadix::Decimal, number).1 == digits_value(
            s.text.skip(s.index),
            number,
        ),
        s.digits_read(NumberRadix::Decimal, number).0.index == s.text.len(),
    decreases s.text.len() - s.index,
{
    lemma_digits(s, NumberRadix::Decimal, number);
    let rest = s.text.skip(s.index);
    if s.index < s.text.len() {
        let c = s.text[s.index];
        assert(rest[0] == c);
        assert(rest.drop_first() =~= s.text.skip(s.index + 1));
        lemma_digits_value_first(rest, number);
        lemma_all_digits_read(s.advanced(), number * 10 + char_digit(c));
    } else {
        assert(rest =~= Seq::<char>::empty());
    }
}

/// The decimal text of a number is read as an integer literal of that number.
pub proof fn law_decimal_literal(s: LexState, n: nat)
    requires
        s.text == decimal(n),
        s.start == 0,
        s.index == 0,
    ensures
        s.token_read().result matches Ok(t) && t.kind == TokenKind::IntLit && t.text == decimal(n)
            && t.value == Some(TokenValueView::Int { integral: n as int, suffix: None }),
        s.token_read().state.index == s.text.len(),
{
    lemma_decimal_digits(n);
    let c = s.text[0];
    assert(decimal(n).len() > 0);
    assert('0' <= c <= '9');
    let begin = s.rewound().blanks_skipped().state;
    assert(begin == s.rewound().marked());
    let first = begin.char_read().state;
    let again = first.stepped_back();
    let second = again.char_read().state;
    lemma_all_digits_read(second, char_digit(c));
    lemma_digits(second, NumberRadix::Decimal, char_digit(c));
    lemma_digits_value_first(s.text, 0);
    assert(s.text.skip(1) =~= s.text.drop_first());
    lemma_digits_value_of_decimal(n);
    let whole = again.number_expected(NumberRadix::Decimal);
    assert(whole.result == Ok::<int, ErrorView>(n as int));
    let end = whole.state;
    assert(end.peek() is None);
    lemma_no_suffix(end);
    if c == '0' && first.peek() is Some {
        assert('0' <= s.text[1] <= '9');
    }
    assert(first.token_from(c) == first.digit_token(c));
    assert(first.digit_token(c) == end.int_token(n as int));
    assert(s.text.subrange(0, s.text.len() as int) =~= s.text);
}

proof fn lemma_no_suffix(s: LexState)
    requires
        s.index == s.text.len(),
    ensures
        s.int_suffix() is None,
{
    reveal_strlit("i8");
    reveal_strlit("i16");
    reveal_strlit("i32");
    reveal_strlit("i64");
    reveal_strlit("i128");
    reveal_strlit("isize");
    reveal_strlit("u8");
    reveal_strlit("u16");
    reveal_strlit("u32");
    reveal_strlit("u64");
    reveal_strlit("u128");
    reveal_strlit("usize");
}

} // verus!
