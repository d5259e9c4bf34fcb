use vstd::prelude::*;

use crate::lexer::initial_state;
use crate::lexer::model::{
    col_at, is_blank, is_letter, is_white_space, is_word_char, law_token_text,
    lemma_advanced_by, lemma_blanks_skipped, lemma_comment_skipped, lemma_line_skipped, line_at, single_kind,
    token_start, trimmed, LexState,
};
use crate::token::{kind_repr, word_kind, TokenKind};

verus! {

/// Whether one step leads from a state to another one and reads a character: it is the one at the
/// place of the first state, and the place is then the next one. After a line break the line is
/// the next one and the column is the first; after any other character the line is the same and
/// the column is the next one. At the end of the text nothing is read, and nothing changes.
pub open spec fn steps(s: LexState, read: Option<char>, t: LexState) -> bool {
    match read {
        Some(c) => {
            &&& 0 <= s.index < s.text.len()
            &&& c == s.text[s.index]
            &&& t.index == s.index + 1
            &&& t.text == s.text && t.file_path == s.file_path && t.start == s.start
            &&& t.span.line_start == s.span.line_start && t.span.col_start == s.span.col_start
            &&& c == '\n' ==> t.span.line_end == s.span.line_end + 1 && t.span.col_end == 1
            &&& c != '\n' ==> t.span.line_end == s.span.line_end && t.span.col_end
                == s.span.col_end + 1
        },
        None => s.index >= s.text.len() && t == s,
    }
}

/// To read on is a step, and the line and the column stay counted.
pub proof fn law_step(s: LexState)
    requires
        s.end_counted(),
    ensures
        steps(s, s.peek(), s.advanced()),
        s.advanced().end_counted(),
        s.has_next() <==> s.peek() is Some,
{
}

/// The line of a place is the number of line breaks before it, counted from one.
pub proof fn law_line_counts_breaks(text: Seq<char>, i: int)
    requires
        0 <= i <= text.len(),
    ensures
        line_at(text, i) == 1 + text.take(i).to_multiset().count('\n'),
    decreases i,
{
    broadcast use vstd::seq_lib::group_to_multiset_ensures;

    if i > 0 {
        law_line_counts_breaks(text, i - 1);
        assert(text.take(i) =~= text.take(i - 1).push(text[i - 1]));
    } else {
        assert(text.take(i) =~= Seq::<char>::empty());
    }
}

/// The column of a place is the number of characters between the last line break before it, or
/// the begin of the text, and the place, counted from one.
pub proof fn law_column_counts_line(text: Seq<char>, begin: int, i: int)
    requires
        0 <= begin <= i <= text.len(),
        begin == 0 || text[begin - 1] == '\n',
        forall|k: int| begin <= k < i ==> #[trigger] text[k] != '\n',
    ensures
        col_at(text, i) == 1 + text.subrange(begin, i).len(),
    decreases i,
{
    if begin < i {
        law_column_counts_line(text, begin, i - 1);
    }
}

/// Whether a line that is read from a place of a text on ends at another place.
pub open spec fn line_ends(text: Seq<char>, i: int, end: int) -> bool {
    &&& i <= end <= text.len()
    &&& forall|k: int| i <= k < end ==> #[trigger] text[k] != '\n'
    &&& end == text.len() || text[end] == '\n'
}

/// Whether two characters stand at a place of a text.
pub open spec fn stands_at(text: Seq<char>, i: int, first: char, second: char) -> bool {
    &&& 0 <= i < text.len() - 1
    &&& text[i] == first
    &&& text[i + 1] == second
}

/// Whether a comment that is open `depth` times at a place of a text ends at another place.
/// Comments nest.
pub open spec fn comment_ends(text: Seq<char>, i: int, depth: nat, end: int) -> bool
    decreases text.len() - i,
{
    if depth == 0 {
        i == end
    } else if i < 0 || i >= text.len() {
        false
    } else if stands_at(text, i, '/', '*') {
        comment_ends(text, i + 2, depth + 1, end)
    } else if stands_at(text, i, '*', '/') {
        comment_ends(text, i + 2, (depth - 1) as nat, end)
    } else {
        comment_ends(text, i + 1, depth, end)
    }
}

/// Whether only blanks and comments stand between two places of a text.
pub open spec fn is_gap(text: Seq<char>, i: int, end: int) -> bool
    decreases end - i,
{
    if i >= end {
        i == end
    } else {
        ||| is_blank(text[i]) && is_gap(text, i + 1, end)
        ||| stands_at(text, i, '/', '/') && exists|e: int|
            i < e <= end && #[trigger] line_ends(text, i + 2, e) && is_gap(text, e, end)
        ||| stands_at(text, i, '/', '*') && exists|e: int|
            i < e <= end && #[trigger] comment_ends(text, i + 2, 1, e) && is_gap(text, e, end)
    }
}

/// Whether neither a blank nor a comment stands at a place of a text.
pub open spec fn ends_gap(text: Seq<char>, i: int) -> bool {
    0 <= i < text.len() ==> {
        &&& !is_blank(text[i])
        &&& !stands_at(text, i, '/', '/')
        &&& !stands_at(text, i, '/', '*')
    }
}

proof fn lemma_line_ends(s: LexState)
    requires
        0 <= s.index <= s.text.len(),
    ensures
        line_ends(s.text, s.index, s.line_skipped().index),
    decreases s.text.len() - s.index,
{
    lemma_line_skipped(s);
    if s.index < s.text.len() && s.text[s.index] != '\n' {
        lemma_line_ends(s.advanced());
    }
}

proof fn lemma_comment_ends(s: LexState, depth: nat)
    requires
        0 <= s.index <= s.text.len(),
    ensures
        s.comment_skipped(depth).result is Ok ==> comment_ends(
            s.text,
            s.index,
            depth,
            s.comment_skipped(depth).state.index,
        ),
    decreases s.text.len() - s.index,
{
    if depth > 0 && s.index < s.text.len() {
        if stands_at(s.text, s.index, '/', '*') {
            lemma_comment_ends(s.advanced().advanced(), depth + 1);
        } else if stands_at(s.text, s.index, '*', '/') {
            lemma_comment_ends(s.advanced().advanced(), (depth - 1) as nat);
        } else {
            lemma_comment_ends(s.advanced(), depth);
        }
    }
}

/// What is skipped before a token is blanks and comments.
pub proof fn law_skipped_is_gap(s: LexState)
    requires
        0 <= s.start <= s.index <= s.text.len(),
    ensures
        s.blanks_skipped().result is Ok ==> is_gap(
            s.text,
            s.index,
            s.blanks_skipped().state.index,
        ),
    decreases s.text.len() - s.index,
{
    lemma_blanks_skipped(s);
    if s.index < s.text.len() {
        let c = s.text[s.index];
        if c == '/' && s.peek_at(1) == Some('/') {
            let line = s.advanced().advanced();
            lemma_line_skipped(line);
            lemma_line_ends(line);
            law_skipped_is_gap(line.line_skipped());
            lemma_blanks_skipped(line.line_skipped());
            assert(line_ends(s.text, s.index + 2, line.line_skipped().index));
        } else if c == '/' && s.peek_at(1) == Some('*') {
            let comment = s.marked().advanced().advanced();
            lemma_comment_skipped(comment, 1);
            lemma_comment_ends(comment, 1);
            let after = comment.comment_skipped(1);
            if after.result is Ok {
                law_skipped_is_gap(after.state);
                lemma_blanks_skipped(after.state);
                assert(comment_ends(s.text, s.index + 2, 1, after.state.index));
            }
        } else if is_blank(c) {
            law_skipped_is_gap(s.advanced());
        }
    }
}

/// To skip blanks and comments again changes nothing: what follows them is the end of the text or
/// a character that is no blank and begins no comment, where the next token begins.
pub proof fn law_blanks_skipped_once(s: LexState)
    requires
        0 <= s.start <= s.index <= s.text.len(),
    ensures
        ({
            let r = s.blanks_skipped();
            let t = r.state;
            &&& t.text == s.text && t.file_path == s.file_path && s.index <= t.index
            &&& r.result is Ok ==> {
                &&& t.blanks_skipped() == r
                &&& ends_gap(t.text, t.index)
                &&& t.index < t.text.len() ==> {
                    &&& t.start == t.index
                    &&& t.span.line_start == t.span.line_end
                    &&& t.span.col_start == t.span.col_end
                }
            }
        }),
    decreases s.text.len() - s.index,
{
    lemma_blanks_skipped(s);
    if s.index < s.text.len() {
        let c = s.text[s.index];
        if c == '/' && s.peek_at(1) == Some('/') {
            let line = s.advanced().advanced();
            lemma_line_skipped(line);
            law_blanks_skipped_once(line.line_skipped());
        } else if c == '/' && s.peek_at(1) == Some('*') {
            let comment = s.marked().advanced().advanced();
            lemma_comment_skipped(comment, 1);
            let after = comment.comment_skipped(1);
            if after.result is Ok {
                law_blanks_skipped_once(after.state);
            }
        } else if is_blank(c) {
            law_blanks_skipped_once(s.advanced());
        } else {
            assert(s.marked().marked() == s.marked());
        }
    }
}

/// Whether two states stand at the same place of the same text.
pub open spec fn same_place(s: LexState, t: LexState) -> bool {
    s.text == t.text && s.index == t.index
}

proof fn lemma_line_same(s: LexState, t: LexState)
    requires
        same_place(s, t),
    ensures
        same_place(s.line_skipped(), t.line_skipped()),
    decreases s.text.len() - s.index,
{
    if let Some(c) = s.peek() {
        if c != '\n' {
            lemma_line_same(s.advanced(), t.advanced());
        }
    }
}

proof fn lemma_comment_same(s: LexState, t: LexState, depth: nat)
    requires
        same_place(s, t),
    ensures
        same_place(s.comment_skipped(depth).state, t.comment_skipped(depth).state),
        s.comment_skipped(depth).result is Ok == t.comment_skipped(depth).result is Ok,
    decreases s.text.len() - s.index,
{
    if depth > 0 {
        if let Some(c) = s.peek() {
            if c == '/' && s.peek_at(1) == Some('*') {
                lemma_comment_same(s.advanced().advanced(), t.advanced().advanced(), depth + 1);
            } else if c == '*' && s.peek_at(1) == Some('/') {
                lemma_comment_same(
                    s.advanced().advanced(),
                    t.advanced().advanced(),
                    (depth - 1) as nat,
                );
            } else {
                lemma_comment_same(s.advanced(), t.advanced(), depth);
            }
        }
    }
}

proof fn lemma_blanks_same(s: LexState, t: LexState)
    requires
        same_place(s, t),
    ensures
        same_place(s.blanks_skipped().state, t.blanks_skipped().state),
        s.blanks_skipped().result is Ok == t.blanks_skipped().result is Ok,
    decreases s.text.len() - s.index,
{
    if let Some(c) = s.peek() {
        if c == '/' && s.peek_at(1) == Some('/') {
            lemma_line_skipped(s.advanced().advanced());
            lemma_line_same(s.advanced().advanced(), t.advanced().advanced());
            lemma_blanks_same(
                s.advanced().advanced().line_skipped(),
                t.advanced().advanced().line_skipped(),
            );
        } else if c == '/' && s.peek_at(1) == Some('*') {
            let left = s.marked().advanced().advanced();
            let right = t.marked().advanced().advanced();
            lemma_comment_skipped(left, 1);
            lemma_comment_same(left, right, 1);
            if left.comment_skipped(1).result is Ok {
                lemma_blanks_same(left.comment_skipped(1).state, right.comment_skipped(1).state);
            }
        } else if is_blank(c) {
            lemma_blanks_same(s.advanced(), t.advanced());
        }
    }
}

proof fn lemma_restart(s: LexState)
    requires
        0 <= s.start <= s.index <= s.text.len(),
        s.blanks_skipped().result is Ok,
        s.rewound().blanks_skipped().result is Ok,
        same_place(s.rewound().blanks_skipped().state, s.blanks_skipped().state),
    ensures
        token_start(s.blanks_skipped().state) == s.blanks_skipped().state.index,
    decreases s.text.len() - s.index,
{
    if let Some(c) = s.peek() {
        if c == '/' && s.peek_at(1) == Some('/') {
            let line = s.advanced().advanced();
            lemma_line_skipped(line);
            assert(line.line_skipped().rewound() == s.rewound());
            lemma_restart(line.line_skipped());
        } else if c == '/' && s.peek_at(1) == Some('*') {
            let comment = s.marked().advanced().advanced();
            lemma_comment_skipped(comment, 1);
            let after = comment.comment_skipped(1);
            lemma_blanks_same(s, after.state.rewound());
            lemma_restart(after.state);
        } else if is_blank(c) {
            assert(s.advanced().rewound() == s.rewound());
            lemma_restart(s.advanced());
        } else {
            lemma_blanks_same(s, s.marked().rewound());
        }
    }
}

/// Between two tokens, and before the first one, stand only blanks and comments.
pub proof fn law_between_tokens(s: LexState)
    requires
        0 <= s.start <= s.index <= s.text.len(),
    ensures
        s.token_read().result is Ok ==> is_gap(s.text, s.start, token_start(s)),
        s.next_token().result is Ok ==> is_gap(
            s.text,
            s.token_read().state.index,
            token_start(s.next_token().state),
        ),
{
    law_skipped_is_gap(s.rewound());
    law_token_text(s);
    let token = s.token_read().state;
    if s.next_token().result is Ok {
        law_skipped_is_gap(token);
        lemma_blanks_same(token, token.rewound());
        lemma_restart(token);
    }
}

/// A lexer that has read nothing has characters left where its text holds anything but white
/// space.
pub proof fn law_nothing_to_read(file_path: Seq<char>, text: Seq<char>)
    ensures
        initial_state(file_path, text).has_next() <==> exists|i: int|
            0 <= i < text.len() && !is_white_space(#[trigger] text[i]),
    decreases text.len(),
{
    if text.len() > 0 {
        let rest = text.drop_last();
        law_nothing_to_read(file_path, rest);
        assert(text[text.len() - 1] == text.last());
        if !initial_state(file_path, text).has_next() {
            assert forall|i: int| 0 <= i < text.len() implies is_white_space(
                #[trigger] text[i],
            ) by {
                if i < rest.len() {
                    assert(is_white_space(rest[i]));
                }
            }
        } else if is_white_space(text.last()) {
            let i = choose|i: int| 0 <= i < rest.len() && !is_white_space(#[trigger] rest[i]);
            assert(!is_white_space(text[i]));
        }
    }
}

/// Whether all tokens of a kind are spelled alike.
pub open spec fn is_fixed(kind: TokenKind) -> bool {
    match kind {
        TokenKind::Label
        | TokenKind::Ident
        | TokenKind::StringLit
        | TokenKind::IntLit
        | TokenKind::FloatLit => false,
        _ => true,
    }
}

/// How the tokens of a kind are spelled that are all spelled alike: as they are shown, without
/// the quotes.
pub open spec fn spelling(kind: TokenKind) -> Seq<char> {
    kind_repr(kind).subrange(1, kind_repr(kind).len() - 1)
}

/// Whether a text is one token of a kind.
pub open spec fn is_token(text: Seq<char>, kind: TokenKind) -> bool {
    forall|file_path: Seq<char>| #[trigger] lexes_to(initial_state(file_path, text), text, kind)
}

/// Whether a token of a kind is read that is the given text, and nothing is left after it.
pub open spec fn lexes_to(s: LexState, text: Seq<char>, kind: TokenKind) -> bool {
    &&& s.next_token().result matches Ok(t)
    &&& t.kind == kind && t.text == text && t.value is None
    &&& s.next_token().state.index == s.text.len()
    &&& s.text == text
}

proof fn lemma_begin(s: LexState)
    requires
        s.text.len() > 0,
        s.start == 0,
        s.index == 0,
        !is_blank(s.text[0]),
        s.text[0] == '/' ==> s.text.len() == 1,
    ensures
        s.token_read() == s.rewound().marked().advanced().token_from(s.text[0]),
        s.rewound().marked().advanced().index == 1,
        s.rewound().marked().advanced().start == 0,
        s.rewound().marked().advanced().text == s.text,
{
}

proof fn lemma_made_to_end(s: LexState, at: LexState, kind: TokenKind)
    requires
        at.text == s.text,
        at.start == 0,
        at.index == s.text.len(),
        s.token_read() == at.token_made(kind, None),
        kind != TokenKind::Ident || word_kind(s.text) != TokenKind::Ident,
    ensures
        lexes_to(
            s,
            s.text,
            if kind == TokenKind::Ident {
                word_kind(s.text)
            } else {
                kind
            },
        ),
{
    assert(s.text.subrange(0, s.text.len() as int) =~= s.text);
    assert(at.marked().peek() is None);
}

proof fn lemma_single(text: Seq<char>, kind: TokenKind)
    requires
        text.len() == 1,
        single_kind(text[0]) == Some(kind),
        kind != TokenKind::Ident,
    ensures
        is_token(text, kind),
{
    assert forall|file_path: Seq<char>| #[trigger]
        lexes_to(initial_state(file_path, text), text, kind) by {
        let s = initial_state(file_path, text);
        assert(trimmed(text) == text);
        lemma_begin(s);
        lemma_made_to_end(s, s.rewound().marked().advanced(), kind);
    }
}

/// The token that is read after the first character of a text of one character, where a longer
/// one may begin.
proof fn lemma_short(text: Seq<char>, kind: TokenKind)
    requires
        text.len() == 1,
        ({
            ||| text[0] == '<' && kind == TokenKind::LAngle
            ||| text[0] == '>' && kind == TokenKind::RAngle
            ||| text[0] == '=' && kind == TokenKind::Equal
            ||| text[0] == '+' && kind == TokenKind::Plus
            ||| text[0] == '-' && kind == TokenKind::Minus
        }),
    ensures
        is_token(text, kind),
{
    reveal_strlit("=");
    reveal_strlit("<");
    reveal_strlit(">");
    reveal_strlit("%");
    reveal_strlit(":");
    assert forall|file_path: Seq<char>| #[trigger]
        lexes_to(initial_state(file_path, text), text, kind) by {
        let s = initial_state(file_path, text);
        assert(trimmed(text) == text);
        lemma_begin(s);
        lemma_made_to_end(s, s.rewound().marked().advanced(), kind);
    }
}

proof fn lemma_looking(s: LexState, word: Seq<char>)
    requires
        word.len() == 1,
        0 <= s.index,
    ensures
        s.looking_at(word) == (s.peek() == Some(word[0])),
        s.looking_at(word) ==> s.word_skipped(word).index == s.index + 1 && s.word_skipped(
            word,
        ).text == s.text && s.word_skipped(word).start == s.start,
{
    lemma_advanced_by(s, 1);
    if s.peek() == Some(word[0]) {
        assert(s.text.subrange(s.index, s.index + 1) =~= word);
    } else if s.index + 1 <= s.text.len() {
        assert(s.text.subrange(s.index, s.index + 1)[0] == s.text[s.index]);
    }
}

/// The tokens of two characters.
proof fn lemma_pair(text: Seq<char>, kind: TokenKind)
    requires
        text.len() == 2,
        ({
            let (c, d) = (text[0], text[1]);
            ||| c == '<' && d == '=' && kind == TokenKind::LessEq
            ||| c == '<' && d == '<' && kind == TokenKind::ShiftLeft
            ||| c == '>' && d == '=' && kind == TokenKind::GreaterEq
            ||| c == '>' && d == '>' && kind == TokenKind::ShiftRight
            ||| c == '=' && d == '=' && kind == TokenKind::EqEq
            ||| c == '!' && d == '=' && kind == TokenKind::NotEq
            ||| c == '+' && d == '%' && kind == TokenKind::PlusPercent
            ||| c == '+' && d == ':' && kind == TokenKind::PlusColon
            ||| c == '-' && d == '>' && kind == TokenKind::Arrow
            ||| c == '-' && d == '%' && kind == TokenKind::MinusPercent
            ||| c == '-' && d == ':' && kind == TokenKind::MinusColon
        }),
    ensures
        is_token(text, kind),
{
    reveal_strlit("=");
    reveal_strlit("<");
    reveal_strlit(">");
    reveal_strlit("%");
    reveal_strlit(":");
    assert forall|file_path: Seq<char>| #[trigger]
        lexes_to(initial_state(file_path, text), text, kind) by {
        let s = initial_state(file_path, text);
        assert(trimmed(text) == text);
        lemma_begin(s);
        let first = s.rewound().marked().advanced();
        lemma_looking(first, "="@);
        lemma_looking(first, "<"@);
        lemma_looking(first, ">"@);
        lemma_looking(first, "%"@);
        lemma_looking(first, ":"@);
        let d = text[1];
        if d == '=' {
            lemma_made_to_end(s, first.word_skipped("="@), kind);
        } else if d == '<' {
            lemma_made_to_end(s, first.word_skipped("<"@), kind);
        } else if d == '>' {
            lemma_made_to_end(s, first.word_skipped(">"@), kind);
        } else if d == '%' {
            lemma_made_to_end(s, first.word_skipped("%"@), kind);
        } else {
            lemma_made_to_end(s, first.word_skipped(":"@), kind);
        }
    }
}

proof fn lemma_word_to_end(s: LexState)
    requires
        0 <= s.index <= s.text.len(),
        forall|k: int| s.index <= k < s.text.len() ==> is_word_char(#[trigger] s.text[k]),
    ensures
        s.word_chars_skipped().index == s.text.len(),
        s.word_chars_skipped().text == s.text,
        s.word_chars_skipped().start == s.start,
    decreases s.text.len() - s.index,
{
    if s.index < s.text.len() {
        lemma_word_to_end(s.advanced());
    }
}

/// Words that are no identifiers.
proof fn lemma_word(text: Seq<char>, kind: TokenKind)
    requires
        text.len() > 0,
        text[0] == '_' || is_letter(text[0]) || (text[0] == '#' && text.len() > 1 && is_letter(
            text[1],
        )),
        forall|k: int| 1 <= k < text.len() ==> is_word_char(#[trigger] text[k]),
        word_kind(text) == kind,
        kind != TokenKind::Ident,
    ensures
        is_token(text, kind),
{
    assert forall|file_path: Seq<char>| #[trigger]
        lexes_to(initial_state(file_path, text), text, kind) by {
        let s = initial_state(file_path, text);
        assert(text.last() == text[text.len() - 1]);
        assert(trimmed(text) == text);
        lemma_begin(s);
        let first = s.rewound().marked().advanced();
        lemma_word_to_end(first);
        if text[0] == '#' {
            lemma_word_to_end(first.advanced());
            lemma_made_to_end(s, first.advanced().word_chars_skipped(), TokenKind::Ident);
        } else {
            lemma_made_to_end(s, first.word_chars_skipped(), TokenKind::Ident);
        }
    }
}

/// Whether the tokens of a kind are one word or directive.
pub open spec fn is_word(kind: TokenKind) -> bool {
    match kind {
        TokenKind::True
        | TokenKind::False
        | TokenKind::As
        | TokenKind::Fun
        | TokenKind::Const
        | TokenKind::Void
        | TokenKind::Noreturn
        | TokenKind::Typedef
        | TokenKind::Underscore
        | TokenKind::Not
        | TokenKind::And
        | TokenKind::Or
        | TokenKind::If
        | TokenKind::While
        | TokenKind::Yield
        | TokenKind::Continue
        | TokenKind::Break
        | TokenKind::Return
        | TokenKind::Else
        | TokenKind::Module
        | TokenKind::Struct
        | TokenKind::Union
        | TokenKind::Using
        | TokenKind::Sizeof
        | TokenKind::Typeof
        | TokenKind::Alignof
        | TokenKind::Compeval
        | TokenKind::DirectiveZero
        | TokenKind::DirectiveUninit
        | TokenKind::DirectiveGhost
        | TokenKind::DirectiveDefault
        | TokenKind::DirectiveTrivial => true,
        _ => false,
    }
}

#[verifier::rlimit(80)]
proof fn lemma_words(kind: TokenKind)
    requires
        is_word(kind),
    ensures
        is_token(spelling(kind), kind),
{
    reveal_strlit("true");
    reveal_strlit("'true'");
    reveal_strlit("false");
    reveal_strlit("'false'");
    reveal_strlit("if");
    reveal_strlit("'if'");
    reveal_strlit("while");
    reveal_strlit("'while'");
    reveal_strlit("yield");
    reveal_strlit("'yield'");
    reveal_strlit("continue");
    reveal_strlit("'continue'");
    reveal_strlit("break");
    reveal_strlit("'break'");
    reveal_strlit("return");
    reveal_strlit("'return'");
    reveal_strlit("as");
    reveal_strlit("'as'");
    reveal_strlit("fun");
    reveal_strlit("'fun'");
    reveal_strlit("const");
    reveal_strlit("'const'");
    reveal_strlit("void");
    reveal_strlit("'void'");
    reveal_strlit("noreturn");
    reveal_strlit("'noreturn'");
    reveal_strlit("typedef");
    reveal_strlit("'typedef'");
    reveal_strlit("_");
    reveal_strlit("'_'");
    reveal_strlit("not");
    reveal_strlit("'not'");
    reveal_strlit("and");
    reveal_strlit("'and'");
    reveal_strlit("or");
    reveal_strlit("'or'");
    reveal_strlit("else");
    reveal_strlit("'else'");
    reveal_strlit("module");
    reveal_strlit("'module'");
    reveal_strlit("struct");
    reveal_strlit("'struct'");
    reveal_strlit("union");
    reveal_strlit("'union'");
    reveal_strlit("using");
    reveal_strlit("'using'");
    reveal_strlit("sizeof");
    reveal_strlit("'sizeof'");
    reveal_strlit("typeof");
    reveal_strlit("'typeof'");
    reveal_strlit("alignof");
    reveal_strlit("'alignof'");
    reveal_strlit("compeval");
    reveal_strlit("'compeval'");
    reveal_strlit("#zero");
    reveal_strlit("'#zero'");
    reveal_strlit("#uninit");
    reveal_strlit("'#uninit'");
    reveal_strlit("#ghost");
    reveal_strlit("'#ghost'");
    reveal_strlit("#default");
    reveal_strlit("'#default'");
    reveal_strlit("#trivial");
    reveal_strlit("'#trivial'");
    match kind {
        TokenKind::True => {
            assert(spelling(kind) =~= "true"@);
            assert(word_kind("true"@) == kind);
        },
        TokenKind::False => {
            assert(spelling(kind) =~= "false"@);
            assert(word_kind("false"@) == kind);
        },
        TokenKind::As => {
            assert(spelling(kind) =~= "as"@);
            assert("as"@[0] != "if"@[0]);
            assert(word_kind("as"@) == kind);
        },
        TokenKind::Fun => {
            assert(spelling(kind) =~= "fun"@);
            assert(word_kind("fun"@) == kind);
        },
        TokenKind::Const => {
            assert(spelling(kind) =~= "const"@);
            assert("const"@[0] != "false"@[0]);
            assert("const"@[0] != "while"@[0]);
            assert("const"@[0] != "yield"@[0]);
            assert("const"@[0] != "break"@[0]);
            assert(word_kind("const"@) == kind);
        },
        TokenKind::Void => {
            assert(spelling(kind) =~= "void"@);
            assert("void"@[0] != "true"@[0]);
            assert(word_kind("void"@) == kind);
        },
        TokenKind::Noreturn => {
            assert(spelling(kind) =~= "noreturn"@);
            assert("noreturn"@[0] != "continue"@[0]);
            assert(word_kind("noreturn"@) == kind);
        },
        TokenKind::Typedef => {
            assert(spelling(kind) =~= "typedef"@);
            assert(word_kind("typedef"@) == kind);
        },
        TokenKind::Underscore => {
            assert(spelling(kind) =~= "_"@);
            assert(word_kind("_"@) == kind);
        },
        TokenKind::Not => {
            assert(spelling(kind) =~= "not"@);
            assert("not"@[0] != "fun"@[0]);
            assert(word_kind("not"@) == kind);
        },
        TokenKind::And => {
            assert(spelling(kind) =~= "and"@);
            assert("and"@[0] != "fun"@[0]);
            assert("and"@[0] != "not"@[0]);
            assert(word_kind("and"@) == kind);
        },
        TokenKind::Or => {
            assert(spelling(kind) =~= "or"@);
            assert("or"@[0] != "if"@[0]);
            assert("or"@[0] != "as"@[0]);
            assert(word_kind("or"@) == kind);
        },
        TokenKind::If => {
            assert(spelling(kind) =~= "if"@);
            assert(word_kind("if"@) == kind);
        },
        TokenKind::While => {
            assert(spelling(kind) =~= "while"@);
            assert("while"@[0] != "false"@[0]);
            assert(word_kind("while"@) == kind);
        },
        TokenKind::Yield => {
            assert(spelling(kind) =~= "yield"@);
            assert("yield"@[0] != "false"@[0]);
            assert("yield"@[0] != "while"@[0]);
            assert(word_kind("yield"@) == kind);
        },
        TokenKind::Continue => {
            assert(spelling(kind) =~= "continue"@);
            assert(word_kind("continue"@) == kind);
        },
        TokenKind::Break => {
            assert(spelling(kind) =~= "break"@);
            assert("break"@[0] != "false"@[0]);
            assert("break"@[0] != "while"@[0]);
            assert("break"@[0] != "yield"@[0]);
            assert(word_kind("break"@) == kind);
        },
        TokenKind::Return => {
            assert(spelling(kind) =~= "return"@);
            assert(word_kind("return"@) == kind);
        },
        TokenKind::Else => {
            assert(spelling(kind) =~= "else"@);
            assert("else"@[0] != "true"@[0]);
            assert("else"@[0] != "void"@[0]);
            assert(word_kind("else"@) == kind);
        },
        TokenKind::Module => {
            assert(spelling(kind) =~= "module"@);
            assert("module"@[0] != "return"@[0]);
            assert(word_kind("module"@) == kind);
        },
        TokenKind::Struct => {
            assert(spelling(kind) =~= "struct"@);
            assert("struct"@[0] != "return"@[0]);
            assert("struct"@[0] != "module"@[0]);
            assert(word_kind("struct"@) == kind);
        },
        TokenKind::Union => {
            assert(spelling(kind) =~= "union"@);
            assert("union"@[0] != "false"@[0]);
            assert("union"@[0] != "while"@[0]);
            assert("union"@[0] != "yield"@[0]);
            assert("union"@[0] != "break"@[0]);
            assert("union"@[0] != "const"@[0]);
            assert(word_kind("union"@) == kind);
        },
        TokenKind::Using => {
            assert(spelling(kind) =~= "using"@);
            assert("using"@[0] != "false"@[0]);
            assert("using"@[0] != "while"@[0]);
            assert("using"@[0] != "yield"@[0]);
            assert("using"@[0] != "break"@[0]);
            assert("using"@[0] != "const"@[0]);
            assert("using"@[1] != "union"@[1]);
            assert(word_kind("using"@) == kind);
        },
        TokenKind::Sizeof => {
            assert(spelling(kind) =~= "sizeof"@);
            assert("sizeof"@[0] != "return"@[0]);
            assert("sizeof"@[0] != "module"@[0]);
            assert("sizeof"@[1] != "struct"@[1]);
            assert(word_kind("sizeof"@) == kind);
        },
        TokenKind::Typeof => {
            assert(spelling(kind) =~= "typeof"@);
            assert("typeof"@[0] != "return"@[0]);
            assert("typeof"@[0] != "module"@[0]);
            assert("typeof"@[0] != "struct"@[0]);
            assert("typeof"@[0] != "sizeof"@[0]);
            assert(word_kind("typeof"@) == kind);
        },
        TokenKind::Alignof => {
            assert(spelling(kind) =~= "alignof"@);
            assert("alignof"@[0] != "typedef"@[0]);
            assert(word_kind("alignof"@) == kind);
        },
        TokenKind::Compeval => {
            assert(spelling(kind) =~= "compeval"@);
            assert("compeval"@[2] != "continue"@[2]);
            assert("compeval"@[0] != "noreturn"@[0]);
            assert(word_kind("compeval"@) == kind);
        },
        TokenKind::DirectiveZero => {
            assert(spelling(kind) =~= "#zero"@);
            assert("#zero"@[0] != "false"@[0]);
            assert("#zero"@[0] != "while"@[0]);
            assert("#zero"@[0] != "yield"@[0]);
            assert("#zero"@[0] != "break"@[0]);
            assert("#zero"@[0] != "const"@[0]);
            assert("#zero"@[0] != "union"@[0]);
            assert("#zero"@[0] != "using"@[0]);
            assert(word_kind("#zero"@) == kind);
        },
        TokenKind::DirectiveUninit => {
            assert(spelling(kind) =~= "#uninit"@);
            assert("#uninit"@[0] != "typedef"@[0]);
            assert("#uninit"@[0] != "alignof"@[0]);
            assert(word_kind("#uninit"@) == kind);
        },
        TokenKind::DirectiveGhost => {
            assert(spelling(kind) =~= "#ghost"@);
            assert("#ghost"@[0] != "return"@[0]);
            assert("#ghost"@[0] != "module"@[0]);
            assert("#ghost"@[0] != "struct"@[0]);
            assert("#ghost"@[0] != "sizeof"@[0]);
            assert("#ghost"@[0] != "typeof"@[0]);
            assert(word_kind("#ghost"@) == kind);
        },
        TokenKind::DirectiveDefault => {
            assert(spelling(kind) =~= "#default"@);
            assert("#default"@[0] != "continue"@[0]);
            assert("#default"@[0] != "noreturn"@[0]);
            assert("#default"@[0] != "compeval"@[0]);
            assert(word_kind("#default"@) == kind);
        },
        TokenKind::DirectiveTrivial => {
            assert(spelling(kind) =~= "#trivial"@);
            assert("#trivial"@[0] != "continue"@[0]);
            assert("#trivial"@[0] != "noreturn"@[0]);
            assert("#trivial"@[0] != "compeval"@[0]);
            assert("#trivial"@[1] != "#default"@[1]);
            assert(word_kind("#trivial"@) == kind);
        },
        _ => {},
    }
    lemma_word(spelling(kind), kind);
}

proof fn lemma_single_marks(kind: TokenKind)
    requires
        ({
            ||| kind == TokenKind::LParen
            ||| kind == TokenKind::RParen
            ||| kind == TokenKind::LBrace
            ||| kind == TokenKind::RBrace
            ||| kind == TokenKind::LBrack
            ||| kind == TokenKind::RBrack
            ||| kind == TokenKind::Comma
            ||| kind == TokenKind::Colon
            ||| kind == TokenKind::Semicolon
            ||| kind == TokenKind::Dot
            ||| kind == TokenKind::Tilde
            ||| kind == TokenKind::Star
            ||| kind == TokenKind::Slash
            ||| kind == TokenKind::Percent
            ||| kind == TokenKind::Ampersand
            ||| kind == TokenKind::Caret
            ||| kind == TokenKind::Pipe
        }),
    ensures
        is_token(spelling(kind), kind),
{
    reveal_strlit("'('");
    reveal_strlit("')'");
    reveal_strlit("'{'");
    reveal_strlit("'}'");
    reveal_strlit("'['");
    reveal_strlit("']'");
    reveal_strlit("','");
    reveal_strlit("':'");
    reveal_strlit("';'");
    reveal_strlit("'.'");
    reveal_strlit("'~'");
    reveal_strlit("'*'");
    reveal_strlit("'/'");
    reveal_strlit("'%'");
    reveal_strlit("'&'");
    reveal_strlit("'^'");
    reveal_strlit("'|'");
    lemma_single(spelling(kind), kind);
}

proof fn lemma_short_marks(kind: TokenKind)
    requires
        ({
            ||| kind == TokenKind::LAngle
            ||| kind == TokenKind::RAngle
            ||| kind == TokenKind::Equal
            ||| kind == TokenKind::Plus
            ||| kind == TokenKind::Minus
        }),
    ensures
        is_token(spelling(kind), kind),
{
    reveal_strlit("'<'");
    reveal_strlit("'>'");
    reveal_strlit("'='");
    reveal_strlit("'+'");
    reveal_strlit("'-'");
    lemma_short(spelling(kind), kind);
}

proof fn lemma_pair_marks(kind: TokenKind)
    requires
        ({
            ||| kind == TokenKind::Arrow
            ||| kind == TokenKind::PlusPercent
            ||| kind == TokenKind::PlusColon
            ||| kind == TokenKind::MinusPercent
            ||| kind == TokenKind::MinusColon
            ||| kind == TokenKind::ShiftLeft
            ||| kind == TokenKind::ShiftRight
            ||| kind == TokenKind::LessEq
            ||| kind == TokenKind::EqEq
            ||| kind == TokenKind::NotEq
            ||| kind == TokenKind::GreaterEq
        }),
    ensures
        is_token(spelling(kind), kind),
{
    reveal_strlit("'->'");
    reveal_strlit("'+%'");
    reveal_strlit("'+:'");
    reveal_strlit("'-%'");
    reveal_strlit("'-:'");
    reveal_strlit("'<<'");
    reveal_strlit("'>>'");
    reveal_strlit("'<='");
    reveal_strlit("'=='");
    reveal_strlit("'!='");
    reveal_strlit("'>='");
    lemma_pair(spelling(kind), kind);
}

/// The spelling of a token that is always spelled alike is read as that token, and nothing is
/// left after it.
pub proof fn law_spelling_is_token(file_path: Seq<char>, kind: TokenKind)
    requires
        is_fixed(kind),
    ensures
        lexes_to(initial_state(file_path, spelling(kind)), spelling(kind), kind),
{
    lemma_spelling_is_token(kind);
}

proof fn lemma_spelling_is_token(kind: TokenKind)
    requires
        is_fixed(kind),
    ensures
        is_token(spelling(kind), kind),
{
    match kind {
        _ if is_word(kind) => lemma_words(kind),
        TokenKind::LAngle
        | TokenKind::RAngle
        | TokenKind::Equal
        | TokenKind::Plus
        | TokenKind::Minus => lemma_short_marks(kind),
        TokenKind::Arrow
        | TokenKind::PlusPercent
        | TokenKind::PlusColon
        | TokenKind::MinusPercent
        | TokenKind::MinusColon
        | TokenKind::ShiftLeft
        | TokenKind::ShiftRight
        | TokenKind::LessEq
        | TokenKind::EqEq
        | TokenKind::NotEq
        | TokenKind::GreaterEq => lemma_pair_marks(kind),
        _ => lemma_single_marks(kind),
    }
}

/// A kind of token is shown in quotes where all its tokens are spelled alike, and in angle brackets
/// where they are not.
pub proof fn law_shown_enclosed(kind: TokenKind)
    ensures
        kind_repr(kind).len() >= 3,
        is_fixed(kind) ==> kind_repr(kind).first() == '\'' && kind_repr(kind).last() == '\'',
        !is_fixed(kind) ==> kind_repr(kind).first() == '<' && kind_repr(kind).last() == '>',
{
    reveal_strlit("'('");
    reveal_strlit("')'");
    reveal_strlit("'{'");
    reveal_strlit("'}'");
    reveal_strlit("'['");
    reveal_strlit("']'");
    reveal_strlit("'<'");
    reveal_strlit("'>'");
    reveal_strlit("','");
    reveal_strlit("':'");
    reveal_strlit("';'");
    reveal_strlit("'='");
    reveal_strlit("'->'");
    reveal_strlit("'.'");
    reveal_strlit("'~'");
    reveal_strlit("'*'");
    reveal_strlit("'/'");
    reveal_strlit("'%'");
    reveal_strlit("'+'");
    reveal_strlit("'+%'");
    reveal_strlit("'+:'");
    reveal_strlit("'-'");
    reveal_strlit("'-%'");
    reveal_strlit("'-:'");
    reveal_strlit("'&'");
    reveal_strlit("'^'");
    reveal_strlit("'|'");
    reveal_strlit("'<<'");
    reveal_strlit("'>>'");
    reveal_strlit("'<='");
    reveal_strlit("'=='");
    reveal_strlit("'!='");
    reveal_strlit("'>='");
    reveal_strlit("<$label>");
    reveal_strlit("<identifier>");
    reveal_strlit("<string>");
    reveal_strlit("<integer>");
    reveal_strlit("<float>");
    reveal_strlit("'true'");
    reveal_strlit("'false'");
    reveal_strlit("'as'");
    reveal_strlit("'fun'");
    reveal_strlit("'const'");
    reveal_strlit("'void'");
    reveal_strlit("'noreturn'");
    reveal_strlit("'typedef'");
    reveal_strlit("'_'");
    reveal_strlit("'not'");
    reveal_strlit("'and'");
    reveal_strlit("'or'");
    reveal_strlit("'if'");
    reveal_strlit("'while'");
    reveal_strlit("'yield'");
    reveal_strlit("'continue'");
    reveal_strlit("'break'");
    reveal_strlit("'return'");
    reveal_strlit("'else'");
    reveal_strlit("'module'");
    reveal_strlit("'struct'");
    reveal_strlit("'union'");
    reveal_strlit("'using'");
    reveal_strlit("'sizeof'");
    reveal_strlit("'typeof'");
    reveal_strlit("'alignof'");
    reveal_strlit("'compeval'");
    reveal_strlit("'#zero'");
    reveal_strlit("'#uninit'");
    reveal_strlit("'#ghost'");
    reveal_strlit("'#default'");
    reveal_strlit("'#trivial'");
}

proof fn lemma_bracketed(kind: TokenKind)
    requires
        !is_fixed(kind),
    ensures
        kind_repr(kind).len() > 3,
        (kind_repr(kind)[1], kind_repr(kind)[2]) == match kind {
            TokenKind::Label => ('$', 'l'),
            TokenKind::Ident => ('i', 'd'),
            TokenKind::StringLit => ('s', 't'),
            TokenKind::IntLit => ('i', 'n'),
            _ => ('f', 'l'),
        },
{
    reveal_strlit("<$label>");
    reveal_strlit("<identifier>");
    reveal_strlit("<string>");
    reveal_strlit("<integer>");
    reveal_strlit("<float>");
}

/// Two kinds of tokens are never shown alike.
pub proof fn law_shown_apart(a: TokenKind, b: TokenKind)
    requires
        kind_repr(a) == kind_repr(b),
    ensures
        a == b,
{
    law_shown_enclosed(a);
    law_shown_enclosed(b);
    if is_fixed(a) && is_fixed(b) {
        law_spelling_is_token(Seq::empty(), a);
        law_spelling_is_token(Seq::empty(), b);
    } else {
        lemma_bracketed(a);
        lemma_bracketed(b);
    }
}

} // verus!
