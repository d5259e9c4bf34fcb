use vstd::prelude::*;

use crate::lexer::model::{
    is_ascii_blank, is_decimal_digit, is_digit, lemma_escape_read, lower_case, suffix_text,
        LexState, NumberRadix,
};
use crate::token::{TokenKind, TokenSuffix, TokenValueView};

verus! {

/// The value of a digit, up to the sixteen digits of the greatest base.
pub open spec fn digit_value(c: char) -> int {
    match c {
        '0' => 0,
        '1' => 1,
        '2' => 2,
        '3' => 3,
        '4' => 4,
        '5' => 5,
        '6' => 6,
        '7' => 7,
        '8' => 8,
        '9' => 9,
        'a' | 'A' => 10,
        'b' | 'B' => 11,
        'c' | 'C' => 12,
        'd' | 'D' => 13,
        'e' | 'E' => 14,
        'f' | 'F' => 15,
        _ => 99,
    }
}

/// The number that a numeral stands for in a base.
pub open spec fn numeral(text: Seq<char>, base: int) -> int
    decreases text.len(),
{
    if text.len() == 0 {
        0
    } else {
        numeral(text.drop_last(), base) * base + digit_value(text.last())
    }
}

/// Whether all characters of a text are digits of a base.
pub open spec fn all_digits(text: Seq<char>, base: int) -> bool {
    forall|k: int| 0 <= k < text.len() ==> digit_value(#[trigger] text[k]) < base
}

spec fn base_of(radix: NumberRadix) -> int {
    match radix {
        NumberRadix::Binary => 2,
        NumberRadix::Octal => 8,
        NumberRadix::Decimal => 10,
        NumberRadix::Hex => 16,
    }
}

proof fn lemma_one_more(text: Seq<char>, a: int, i: int, base: int)
    requires
        0 <= a <= i < text.len(),
    ensures
        numeral(text.subrange(a, i + 1), base) == numeral(text.subrange(a, i), base) * base
            + digit_value(text[i]),
{
    let more = text.subrange(a, i + 1);
    assert(more.drop_last() =~= text.subrange(a, i));
    assert(more.last() == text[i]);
}

#[verifier::spinoff_prover]
proof fn lemma_digits_read(s: LexState, radix: NumberRadix, a: int)
    requires
        0 <= a <= s.index <= s.text.len(),
        all_digits(s.text.subrange(a, s.index), base_of(radix)),
    ensures
        ({
            let base = base_of(radix);
            let (t, v) = s.digits_read(radix, numeral(s.text.subrange(a, s.index), base));
            &&& t.text == s.text
            &&& t.start == s.start
            &&& s.index <= t.index <= t.text.len()
            &&& v == numeral(s.text.subrange(a, t.index), base)
            &&& all_digits(s.text.subrange(a, t.index), base)
            &&& t.index < t.text.len() ==> digit_value(t.text[t.index]) >= base
        }),
    decreases s.text.len() - s.index,
{
    let base = base_of(radix);
    if s.index < s.text.len() {
        let c = s.text[s.index];
        if is_digit(radix, c) {
            lemma_one_more(s.text, a, s.index, base);
            let more = s.text.subrange(a, s.index + 1);
            assert forall|k: int| 0 <= k < more.len() implies digit_value(#[trigger] more[k])
                < base by {
                if k < s.index - a {
                    assert(more[k] == s.text.subrange(a, s.index)[k]);
                }
            }
            lemma_digits_read(s.advanced(), radix, a);
        }
    }
}

#[verifier::spinoff_prover]
proof fn lemma_number_read(s: LexState, radix: NumberRadix)
    requires
        0 <= s.index <= s.text.len(),
    ensures
        s.number_expected(radix).result matches Ok(v) ==> {
            let t = s.number_expected(radix).state;
            &&& t.text == s.text
            &&& t.start == s.start
            &&& s.index < t.index <= t.text.len()
            &&& v == numeral(s.text.subrange(s.index, t.index), base_of(radix))
            &&& all_digits(s.text.subrange(s.index, t.index), base_of(radix))
            &&& t.index < t.text.len() ==> digit_value(t.text[t.index]) >= base_of(radix)
        },
{
    if s.index < s.text.len() {
        let c = s.text[s.index];
        if is_digit(radix, c) {
            let one = s.text.subrange(s.index, s.index + 1);
            lemma_one_more(s.text, s.index, s.index, base_of(radix));
            assert(s.text.subrange(s.index, s.index) =~= Seq::<char>::empty());
            assert(numeral(Seq::<char>::empty(), base_of(radix)) == 0);
            assert(one[0] == c);
            lemma_digits_read(s.advanced(), radix, s.index);
        }
    }
}

/// How the suffix of a number is written.
pub open spec fn suffix_spelling(suffix: TokenSuffix) -> Seq<char> {
    match suffix {
        TokenSuffix::I8 => seq!['i', '8'],
        TokenSuffix::I16 => seq!['i', '1', '6'],
        TokenSuffix::I32 => seq!['i', '3', '2'],
        TokenSuffix::I64 => seq!['i', '6', '4'],
        TokenSuffix::I128 => seq!['i', '1', '2', '8'],
        TokenSuffix::ISize => seq!['i', 's', 'i', 'z', 'e'],
        TokenSuffix::U8 => seq!['u', '8'],
        TokenSuffix::U16 => seq!['u', '1', '6'],
        TokenSuffix::U32 => seq!['u', '3', '2'],
        TokenSuffix::U64 => seq!['u', '6', '4'],
        TokenSuffix::U128 => seq!['u', '1', '2', '8'],
        TokenSuffix::USize => seq!['u', 's', 'i', 'z', 'e'],
        TokenSuffix::F32 => seq!['f', '3', '2'],
        TokenSuffix::F64 => seq!['f', '6', '4'],
    }
}

#[verifier::spinoff_prover]
proof fn lemma_suffix(s: LexState)
    requires
        0 <= s.index <= s.text.len(),
    ensures
        s.int_suffix() matches Some(x) ==> {
            &&& s.looking_at(suffix_spelling(x))
            &&& suffix_text(x) == suffix_spelling(x)
            &&& x != TokenSuffix::F32
            &&& x != TokenSuffix::F64
        },
        s.float_suffix() matches Some(x) ==> {
            &&& s.looking_at(suffix_spelling(x))
            &&& suffix_text(x) == suffix_spelling(x)
            &&& x == TokenSuffix::F32 || x == TokenSuffix::F64
        },
{
    reveal_strlit("i8");
    reveal_strlit("i16");
    reveal_strlit("i32");
    reveal_strlit("i64");
    reveal_strlit("i128");
    reveal_strlit("isize");
    reveal_strlit("u8");
    reveal_strlit("u16");
    reveal_strlit("u32");
    reveal_strlit("u64");
    reveal_strlit("u128");
    reveal_strlit("usize");
    reveal_strlit("f32");
    reveal_strlit("f64");
    assert("i8"@ =~= seq!['i', '8']);
    assert("i16"@ =~= seq!['i', '1', '6']);
    assert("i32"@ =~= seq!['i', '3', '2']);
    assert("i64"@ =~= seq!['i', '6', '4']);
    assert("i128"@ =~= seq!['i', '1', '2', '8']);
    assert("isize"@ =~= seq!['i', 's', 'i', 'z', 'e']);
    assert("u8"@ =~= seq!['u', '8']);
    assert("u16"@ =~= seq!['u', '1', '6']);
    assert("u32"@ =~= seq!['u', '3', '2']);
    assert("u64"@ =~= seq!['u', '6', '4']);
    assert("u128"@ =~= seq!['u', '1', '2', '8']);
    assert("usize"@ =~= seq!['u', 's', 'i', 'z', 'e']);
    assert("f32"@ =~= seq!['f', '3', '2']);
    assert("f64"@ =~= seq!['f', '6', '4']);
}

/// Whether the characters from a place up to another one are a numeral of a number in a base.
pub open spec fn numeral_at(text: Seq<char>, i: int, j: int, base: int, number: int) -> bool {
    &&& 0 <= i < j <= text.len()
    &&& all_digits(text.subrange(i, j), base)
    &&& number == numeral(text.subrange(i, j), base)
}

/// The base of the numeral that begins at a place: that of its mark, or ten.
pub open spec fn base_at(text: Seq<char>, i: int) -> int {
    if i + 1 < text.len() && text[i] == '0' {
        match text[i + 1] {
            'b' | 'B' => 2,
            'o' | 'O' => 8,
            'x' | 'X' => 16,
            _ => 10,
        }
    } else {
        10
    }
}

/// Where the digits of the numeral that begins at a place begin: after the mark of the base.
pub open spec fn digits_from(text: Seq<char>, i: int) -> int {
    if base_at(text, i) == 10 {
        i
    } else {
        i + 2
    }
}

/// Whether the characters from a place up to another one are a suffix, or there is none.
pub open spec fn suffix_at(
    text: Seq<char>,
    i: int,
    j: int,
    suffix: Option<TokenSuffix>,
) -> bool {
    match suffix {
        None => i == j,
        Some(x) => 0 <= i <= j <= text.len() && text.subrange(i, j) == suffix_spelling(x),
    }
}

/// Whether the characters from a place up to another one are the power of a number, or there is
/// none: its mark, a sign, and a numeral.
pub open spec fn power_at(text: Seq<char>, i: int, j: int, base: int, power: int) -> bool {
    if i == j {
        power == 0
    } else {
        &&& 0 <= i
        &&& i + 2 < j <= text.len()
        &&& base == 10 ==> text[i] == 'e' || text[i] == 'E'
        &&& base == 16 ==> text[i] == 'p' || text[i] == 'P'
        &&& match text[i + 1] {
            '+' => numeral_at(text, i + 2, j, base, power),
            '-' => numeral_at(text, i + 2, j, base, -power),
            _ => false,
        }
    }
}

/// Whether the characters from a place up to another one are the fraction of a number, or there is
/// none: a point and a numeral.
pub open spec fn fraction_at(text: Seq<char>, i: int, j: int, base: int, number: int) -> bool {
    if i == j {
        number == 0
    } else {
        0 <= i < text.len() && text[i] == '.' && numeral_at(text, i + 1, j, base, number)
    }
}

/// Any places in a number.
pub open spec fn places(i: int, j: int, k: int) -> bool {
    true
}

/// Whether the value of a number is what its characters say.
pub open spec fn number_at(text: Seq<char>, i: int, j: int, value: TokenValueView) -> bool {
    let base = base_at(text, i);
    let from = digits_from(text, i);
    match value {
        TokenValueView::Int { integral, suffix } => exists|m: int| #[trigger]
            places(m, m, m) && numeral_at(text, from, m, base, integral) && suffix_at(
                text,
                m,
                j,
                suffix,
            ),
        TokenValueView::Float { integral, fractional, mantissa, suffix } => {
            &&& base == 10 || base == 16
            &&& exists|m: int, p: int, q: int| #[trigger]
                places(m, p, q) && m < q && numeral_at(text, from, m, base, integral)
                    && fraction_at(text, m, p, base, fractional) && power_at(
                    text,
                    p,
                    q,
                    base,
                    mantissa,
                ) && suffix_at(text, q, j, suffix)
        },
        _ => false,
    }
}

#[verifier::spinoff_prover]
proof fn lemma_int_token(s: LexState, integral: int)
    requires
        0 <= s.start <= s.index <= s.text.len(),
    ensures
        ({
            let r = s.int_token(integral);
            &&& r.result matches Ok(t)
            &&& t.kind == TokenKind::IntLit
            &&& t.value matches Some(TokenValueView::Int { integral: n, suffix })
            &&& n == integral
            &&& suffix_at(s.text, s.index, r.state.index, suffix)
        }),
{
    lemma_suffix(s);
    if let Some(x) = s.int_suffix() {
        lemma_by(s, suffix_spelling(x).len());
    }
}

#[verifier::spinoff_prover]
proof fn lemma_float_token(s: LexState, integral: int, fractional: int, mantissa: int)
    requires
        0 <= s.start <= s.index <= s.text.len(),
    ensures
        ({
            let r = s.float_token(integral, fractional, mantissa);
            &&& r.result matches Ok(t)
            &&& t.kind == TokenKind::FloatLit
            &&& t.value matches Some(
                TokenValueView::Float { integral: n, fractional: f, mantissa: e, suffix },
            )
            &&& n == integral
            &&& f == fractional
            &&& e == mantissa
            &&& suffix_at(s.text, s.index, r.state.index, suffix)
        }),
{
    lemma_suffix(s);
    if let Some(x) = s.float_suffix() {
        lemma_by(s, suffix_spelling(x).len());
    }
}

proof fn lemma_by(s: LexState, n: nat)
    requires
        0 <= s.index,
        s.index + n <= s.text.len(),
    ensures
        s.advanced_by(n).index == s.index + n,
        s.advanced_by(n).text == s.text,
        s.advanced_by(n).start == s.start,
    decreases n,
{
    if n > 0 {
        lemma_by(s.advanced(), (n - 1) as nat);
    }
}

#[verifier::spinoff_prover]
proof fn lemma_exponent(s: LexState, radix: NumberRadix)
    requires
        0 <= s.start <= s.index < s.text.len(),
        radix == NumberRadix::Decimal ==> s.text[s.index] == 'e' || s.text[s.index] == 'E',
        radix == NumberRadix::Hex ==> s.text[s.index] == 'p' || s.text[s.index] == 'P',
    ensures
        s.exponent_read(radix).result matches Ok(power) ==> {
            let t = s.exponent_read(radix).state;
            &&& t.text == s.text
            &&& t.start == s.start
            &&& s.index < t.index <= t.text.len()
            &&& power_at(s.text, s.index, t.index, base_of(radix), power)
        },
{
    let sign = s.advanced().char_read();
    if let Ok(c) = sign.result {
        lemma_number_read(sign.state, radix);
    }
}

/// The token that begins with a digit holds the number that its characters say, in the base that
/// its mark says, and the suffix at its end. The parts of a number with a point or a power are
/// those that are written before the point, after it, and as the power.
#[verifier::spinoff_prover]
pub proof fn law_number_value(s: LexState, c: char)
    requires
        0 <= s.start,
        s.index == s.start + 1,
        s.index <= s.text.len(),
        s.text[s.start] == c,
        is_decimal_digit(c),
    ensures
        s.digit_token(c).result matches Ok(t) ==> {
            &&& t.value matches Some(value)
            &&& number_at(s.text, s.start, s.digit_token(c).state.index, value)
            &&& t.kind == if value is Int {
                TokenKind::IntLit
            } else {
                TokenKind::FloatLit
            }
        },
{
    let mark = if c == '0' {
        s.peek()
    } else {
        None
    };
    let text = s.text;
    if mark == Some('b') || mark == Some('B') || mark == Some('o') || mark == Some('O') {
        let radix = if mark == Some('b') || mark == Some('B') {
            NumberRadix::Binary
        } else {
            NumberRadix::Octal
        };
        lemma_number_read(s.advanced(), radix);
        let digits = s.advanced().number_expected(radix);
        if let Ok(n) = digits.result {
            lemma_int_token(digits.state, n);
            let m = digits.state.index;
            assert(places(m, m, m));
        }
    } else if mark == Some('x') || mark == Some('X') {
        lemma_number_token(s.advanced(), NumberRadix::Hex, 'p');
    } else {
        lemma_number_token(s.stepped_back(), NumberRadix::Decimal, 'e');
    }
}

#[verifier::spinoff_prover]
proof fn lemma_number_token(s: LexState, radix: NumberRadix, exp: char)
    requires
        0 <= s.start <= s.index <= s.text.len(),
        s.index == digits_from(s.text, s.start),
        base_of(radix) == base_at(s.text, s.start),
        radix == NumberRadix::Decimal && exp == 'e' || radix == NumberRadix::Hex && exp == 'p',
    ensures
        s.number_token(radix, exp).result matches Ok(t) ==> {
            &&& t.value matches Some(value)
            &&& number_at(s.text, s.start, s.number_token(radix, exp).state.index, value)
            &&& t.kind == if value is Int {
                TokenKind::IntLit
            } else {
                TokenKind::FloatLit
            }
        },
{
    lemma_number_read(s, radix);
    let whole = s.number_expected(radix);
    if let Ok(integral) = whole.result {
        let m = whole.state.index;
        assert(places(m, m, m));
        lemma_int_token(whole.state, integral);
        if let Some(c) = whole.state.peek() {
            if c == '.' {
                lemma_number_read(whole.state.advanced(), radix);
                let part = whole.state.advanced().number_expected(radix);
                if let Ok(fractional) = part.result {
                    let p = part.state.index;
                    assert(fraction_at(s.text, m, p, base_of(radix), fractional));
                    lemma_float_token(part.state, integral, fractional, 0);
                    assert(places(m, p, p));
                    if let Some(d) = part.state.peek() {
                        if lower_case(d) == lower_case(exp) {
                            lemma_exponent(part.state, radix);
                            let power = part.state.exponent_read(radix);
                            if let Ok(mantissa) = power.result {
                                lemma_float_token(power.state, integral, fractional, mantissa);
                                assert(places(m, p, power.state.index));
                            }
                        }
                    }
                }
            } else if c == exp {
                lemma_exponent(whole.state, radix);
                let power = whole.state.exponent_read(radix);
                if let Ok(mantissa) = power.result {
                    lemma_float_token(power.state, integral, 0, mantissa);
                    assert(places(m, m, power.state.index));
                }
            }
        }
    }
}

/// Whether the characters from a place up to another one, after a backslash, stand for a
/// character: a letter for a control character, a mark for itself, `x` and two digits or `u` and
/// digits in braces for a code point, and the end of a line for itself, with the white space that
/// the next line begins with.
pub open spec fn escape_at(text: Seq<char>, i: int, j: int, d: char) -> bool {
    &&& 0 <= i < j <= text.len()
    &&& match text[i] {
        '0' => j == i + 1 && d as int == 0,
        'a' => j == i + 1 && d as int == 7,
        'b' => j == i + 1 && d as int == 8,
        't' => j == i + 1 && d as int == 9,
        'n' => j == i + 1 && d as int == 10,
        'v' => j == i + 1 && d as int == 11,
        'f' => j == i + 1 && d as int == 12,
        'r' => j == i + 1 && d as int == 13,
        'e' => j == i + 1 && d as int == 27,
        '"' | '\'' | '`' | '\\' => j == i + 1 && d == text[i],
        'x' => j == i + 3 && (d as int) < 128 && numeral_at(text, i + 1, j, 16, d as int),
        'u' => {
            &&& i + 3 < j <= i + 9
            &&& text[i + 1] == '{'
            &&& text[j - 1] == '}'
            &&& numeral_at(text, i + 2, j - 1, 16, d as int)
        },
        '\n' => d == text[i] && forall|k: int| i < k < j ==> is_ascii_blank(#[trigger] text[k]),
        _ => false,
    }
}

/// Any place in a string.
pub open spec fn string_place(k: int) -> bool {
    true
}

/// Whether the characters from a place up to another one are a string as it is written: each
/// character for itself, and what follows a backslash for what it stands for.
pub open spec fn written(text: Seq<char>, i: int, j: int, string: Seq<char>) -> bool
    decreases string.len(),
{
    if string.len() == 0 {
        i == j
    } else {
        exists|k: int| #[trigger]
            string_place(k) && written(text, i, k, string.drop_last()) && 0 <= k < text.len()
                && if text[k]
                == '\\' {
                escape_at(text, k + 1, j, string.last())
            } else {
                j == k + 1 && string.last() == text[k]
            }
    }
}

#[verifier::spinoff_prover]
proof fn lemma_code_digits_read(s: LexState, a: int, times: int)
    requires
        0 <= a <= s.index <= s.text.len(),
        times == s.index - a,
        0 <= times <= 6,
        all_digits(s.text.subrange(a, s.index), 16),
    ensures
        s.code_digits(numeral(s.text.subrange(a, s.index), 16), times).result matches Ok(
            (number, count),
        ) ==> {
            let t = s.code_digits(numeral(s.text.subrange(a, s.index), 16), times).state;
            &&& t.text == s.text
            &&& t.start == s.start
            &&& s.index <= t.index <= t.text.len()
            &&& count == t.index - a
            &&& count <= 6
            &&& number == numeral(s.text.subrange(a, t.index), 16)
            &&& all_digits(s.text.subrange(a, t.index), 16)
        },
    decreases 6 - times,
{
    if times < 6 && s.index < s.text.len() {
        let c = s.text[s.index];
        if c != '}' && is_digit(NumberRadix::Hex, c) {
            lemma_one_more(s.text, a, s.index, 16);
            let more = s.text.subrange(a, s.index + 1);
            assert forall|k: int| 0 <= k < more.len() implies digit_value(#[trigger] more[k])
                < 16 by {
                if k < s.index - a {
                    assert(more[k] == s.text.subrange(a, s.index)[k]);
                }
            }
            lemma_code_digits_read(s.advanced(), a, times + 1);
        }
    }
}

#[verifier::spinoff_prover]
proof fn lemma_blanks(s: LexState)
    requires
        0 <= s.index <= s.text.len(),
    ensures
        ({
            let t = s.ascii_blanks_skipped();
            &&& t.text == s.text
            &&& t.start == s.start
            &&& s.index <= t.index <= t.text.len()
            &&& forall|k: int| s.index <= k < t.index ==> is_ascii_blank(#[trigger] s.text[k])
        }),
    decreases s.text.len() - s.index,
{
    if s.index < s.text.len() && is_ascii_blank(s.text[s.index]) {
        lemma_blanks(s.advanced());
    }
}

#[verifier::spinoff_prover]
proof fn lemma_byte_escape(s: LexState)
    requires
        0 < s.index <= s.text.len(),
        s.text[s.index - 1] == 'x',
    ensures
        s.byte_escape().result matches Ok(d) ==> {
            let t = s.byte_escape().state;
            &&& t.text == s.text
            &&& t.start == s.start
            &&& escape_at(s.text, s.index - 1, t.index, d)
        },
{
    let i = s.index;
    if i + 1 < s.text.len() {
        let high = s.text[i];
        let low = s.text[i + 1];
        if is_digit(NumberRadix::Octal, high) && is_digit(NumberRadix::Hex, low) {
            lemma_one_more(s.text, i, i, 16);
            lemma_one_more(s.text, i, i + 1, 16);
            assert(s.text.subrange(i, i) =~= Seq::<char>::empty());
            assert(numeral(Seq::<char>::empty(), 16) == 0);
            let both = s.text.subrange(i, i + 2);
            assert forall|k: int| 0 <= k < both.len() implies digit_value(#[trigger] both[k])
                < 16 by {
                assert(both[k] == high || both[k] == low);
            }
        }
    }
}

#[verifier::spinoff_prover]
proof fn lemma_code_escape(s: LexState)
    requires
        0 < s.index <= s.text.len(),
        s.text[s.index - 1] == 'u',
    ensures
        s.code_escape().result matches Ok(d) ==> {
            let t = s.code_escape().state;
            &&& t.text == s.text
            &&& t.start == s.start
            &&& escape_at(s.text, s.index - 1, t.index, d)
        },
{
    reveal_strlit("{");
    reveal_strlit("}");
    let i = s.index;
    if s.looking_at("{"@) {
        assert(s.text.subrange(i, i + 1)[0] == s.text[i]);
        lemma_by(s, 1);
        let open = s.word_expected("{"@).state;
        assert(s.text.subrange(i + 1, i + 1) =~= Seq::<char>::empty());
        assert(numeral(Seq::<char>::empty(), 16) == 0);
        lemma_code_digits_read(open, i + 1, 0);
        let digits = open.code_digits(0, 0);
        if let Ok((number, times)) = digits.result {
            let end = digits.state;
            if end.looking_at("}"@) {
                assert(end.text.subrange(end.index, end.index + 1)[0] == end.text[end.index]);
                lemma_by(end, 1);
            }
        }
    }
}

#[verifier::spinoff_prover]
proof fn lemma_escape(s: LexState)
    requires
        0 <= s.index <= s.text.len(),
    ensures
        s.escape_read().result matches Ok(d) ==> {
            let t = s.escape_read().state;
            &&& t.text == s.text
            &&& t.start == s.start
            &&& escape_at(s.text, s.index, t.index, d)
        },
{
    if s.index < s.text.len() {
        let c = s.text[s.index];
        if c == 'x' {
            lemma_byte_escape(s.advanced());
        } else if c == 'u' {
            lemma_code_escape(s.advanced());
        } else if c == '\n' {
            lemma_blanks(s.advanced());
        }
    }
}

/// What is read of a string is what is written, up to the mark that ends it.
#[verifier::spinoff_prover]
pub proof fn law_string_value(
    s: LexState,
    quantifier: char,
    multiline: bool,
    a: int,
    string: Seq<char>,
)
    requires
        0 <= s.index <= s.text.len(),
        quantifier != '\\',
        written(s.text, a, s.index, string),
    ensures
        s.string_rest(quantifier, multiline, string).result matches Ok(r) ==> {
            let end = s.string_rest(quantifier, multiline, string).state.index;
            &&& s.index < end <= s.text.len()
            &&& s.text[end - 1] == quantifier
            &&& written(s.text, a, end - 1, r)
        },
    decreases s.text.len() - s.index,
{
    if s.index < s.text.len() {
        let c = s.text[s.index];
        assert(string_place(s.index));
        if c == '\\' {
            lemma_escape_read(s.advanced());
            lemma_escape(s.advanced());
            let escape = s.advanced().escape_read();
            if let Ok(d) = escape.result {
                let more = string.push(d);
                assert(more.drop_last() =~= string);
                law_string_value(escape.state, quantifier, multiline, a, more);
            }
        } else if c != quantifier {
            let more = string.push(c);
            assert(more.drop_last() =~= string);
            law_string_value(s.advanced(), quantifier, multiline, a, more);
        }
    }
}

} // verus!
