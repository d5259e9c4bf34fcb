use blast::common::{CompileError, LineInfo};
use blast::compile::tokenize;
use blast::lexer::Lexer;
use blast::token::{get_word_kind, Token, TokenKind, TokenSuffix, TokenValue};

fn tokens(text: &str) -> Vec<Token> {
    let t = tokenize("a.bl", text);
    assert!(t.error.is_none());
    t.list
}

fn kinds(text: &str) -> Vec<TokenKind> {
    tokens(text).iter().map(|t| t.kind).collect()
}

fn single(text: &str) -> Token {
    let mut list = tokens(text);
    assert_eq!(list.len(), 1);
    list.pop().unwrap()
}

fn error(text: &str) -> (String, usize, usize) {
    match tokenize("a.bl", text).error {
        Some(CompileError::LexerError { file_path, line_info, msg }) => {
            assert_eq!(file_path, "a.bl");
            (msg, line_info.line_start, line_info.col_start)
        }
        Some(CompileError::Errors(v)) => match &v[0] {
            CompileError::LexerError { line_info, msg, .. } => {
                (msg.clone(), line_info.line_start, line_info.col_start)
            }
            _ => panic!("another report"),
        },
        _ => panic!("no error"),
    }
}

#[test]
fn operators_are_as_long_as_they_can_be() {
    assert_eq!(
        kinds("< <= << > >= >> = == - -> !="),
        vec![
            TokenKind::LAngle,
            TokenKind::LessEq,
            TokenKind::ShiftLeft,
            TokenKind::RAngle,
            TokenKind::GreaterEq,
            TokenKind::ShiftRight,
            TokenKind::Equal,
            TokenKind::EqEq,
            TokenKind::Minus,
            TokenKind::Arrow,
            TokenKind::NotEq,
        ]
    );
}

#[test]
fn single_characters() {
    assert_eq!(
        kinds("(){}[],:;.~*/%+&^|"),
        vec![
            TokenKind::LParen,
            TokenKind::RParen,
            TokenKind::LBrace,
            TokenKind::RBrace,
            TokenKind::LBrack,
            TokenKind::RBrack,
            TokenKind::Comma,
            TokenKind::Colon,
            TokenKind::Semicolon,
            TokenKind::Dot,
            TokenKind::Tilde,
            TokenKind::Star,
            TokenKind::Slash,
            TokenKind::Percent,
            TokenKind::Plus,
            TokenKind::Ampersand,
            TokenKind::Caret,
            TokenKind::Pipe,
        ]
    );
}

#[test]
fn words_and_names() {
    assert_eq!(
        kinds("fun while whiles _ _a #zero $loop true"),
        vec![
            TokenKind::Fun,
            TokenKind::While,
            TokenKind::Ident,
            TokenKind::Underscore,
            TokenKind::Ident,
            TokenKind::DirectiveZero,
            TokenKind::Label,
            TokenKind::True,
        ]
    );
    assert_eq!(get_word_kind("sizeof"), TokenKind::Sizeof);
    assert_eq!(get_word_kind("sizeOf"), TokenKind::Ident);
    assert_eq!(Lexer::get_ident_kind("return"), TokenKind::Return);
}

#[test]
fn representations_of_kinds() {
    assert_eq!(TokenKind::Arrow.get_repr(), "'->'");
    assert_eq!(TokenKind::While.get_repr(), "'while'");
    assert_eq!(TokenKind::Ident.get_repr(), "<identifier>");
    assert_eq!(TokenKind::Label.get_repr(), "<$label>");
}

#[test]
fn integers_in_all_radices() {
    for (text, number) in [("0", 0), ("7", 7), ("1234567890", 1234567890), ("0x1F", 31), ("0b101", 5), ("0o17", 15)] {
        match single(text).value {
            Some(TokenValue::Int { integral, suffix }) => {
                assert_eq!(integral.to_i64(), Some(number));
                assert_eq!(suffix, None);
            }
            _ => panic!("no integer"),
        }
    }
}

#[test]
fn suffixes_of_integers() {
    match single("12u16").value {
        Some(TokenValue::Int { integral, suffix }) => {
            assert_eq!(integral.to_u8(), Some(12));
            assert_eq!(suffix, Some(TokenSuffix::U16));
        }
        _ => panic!("no integer"),
    }
    match single("12usize").value {
        Some(TokenValue::Int { integral: _, suffix }) => assert_eq!(suffix, Some(TokenSuffix::USize)),
        _ => panic!("no integer"),
    }
}

#[test]
fn floats_have_three_parts() {
    match single("2.50e-3f32").value {
        Some(TokenValue::Float { integral, fractional, mantissa, suffix }) => {
            assert_eq!(integral.to_i64(), Some(2));
            assert_eq!(fractional.to_i64(), Some(50));
            assert_eq!(mantissa.to_i64(), Some(-3));
            assert_eq!(suffix, Some(TokenSuffix::F32));
        }
        _ => panic!("no float"),
    }
    match single("1e+2").value {
        Some(TokenValue::Float { integral, fractional, mantissa, suffix }) => {
            assert_eq!(integral.to_i64(), Some(1));
            assert_eq!(fractional.to_i64(), Some(0));
            assert_eq!(mantissa.to_i64(), Some(2));
            assert_eq!(suffix, None);
        }
        _ => panic!("no float"),
    }
}

#[test]
fn text_of_tokens_is_a_piece_of_the_source() {
    let source = "ab := 0x1f; // end";
    let list = tokens(source);
    let texts: Vec<&str> = list.iter().map(|t| t.text.as_str()).collect();
    assert_eq!(texts, vec!["ab", ":", "=", "0x1f", ";"]);
    for t in &list {
        assert!(source.contains(&t.text));
    }
}

#[test]
fn regions_of_tokens() {
    let list = tokens("ab\n  c");
    assert_eq!(list[0].line_info, LineInfo { line_start: 1, line_end: 1, col_start: 1, col_end: 3 });
    assert_eq!(list[1].line_info, LineInfo { line_start: 2, line_end: 2, col_start: 3, col_end: 4 });
}

#[test]
fn escapes_in_strings() {
    match single("\"a\\n\\t\\\\\\x41\\u{e4}\"").value {
        Some(TokenValue::String(s)) => assert_eq!(s, "a\n\t\\Aä"),
        _ => panic!("no string"),
    }
    match single("`two\nlines`").value {
        Some(TokenValue::String(s)) => assert_eq!(s, "two\nlines"),
        _ => panic!("no string"),
    }
}

#[test]
fn comments_are_skipped() {
    assert_eq!(kinds("a // b\nc /* d /* e */ f */ g"), vec![TokenKind::Ident; 3]);
    assert!(kinds("   ").is_empty());
}

#[test]
fn errors_of_the_lexer() {
    assert_eq!(error("a ?").0, "unexpected char '?'");
    assert_eq!(error("\"ab").0, "expected end of string <\">");
    assert_eq!(error("\"a\nb\"").0, "newlines are not allowed in single-line strings");
    assert_eq!(error("\"\\q\"").0, "invalid escape sequence '\\q'");
    assert_eq!(error("!").0, "expected '='");
    assert_eq!(error("0b2").0, "expected decimal digit");
    assert_eq!(error("1.5e2").0, "expected '+' or '-'");
    assert_eq!(error("/* a").0, "expected end of multiline comment, comment depth: '1'");
    assert_eq!(error("\"\\u{d800}\"").0.is_empty(), false);
}

#[test]
fn tokens_before_an_error_are_kept() {
    let t = tokenize("a.bl", "a b ?");
    assert_eq!(t.list.len(), 2);
    assert!(t.error.is_some());
}

#[test]
fn lexer_reads_one_token_after_the_other() {
    let mut lexer = Lexer::new("a.bl", "x = 1  ");
    let mut texts = Vec::new();
    while lexer.has_next_token() {
        match lexer.next_token() {
            Ok(t) => texts.push(t.text),
            Err(_) => panic!("error"),
        }
    }
    assert_eq!(texts, vec!["x", "=", "1"]);
}

#[test]
fn digits_of_radices() {
    assert!(Lexer::is_binary('1') && !Lexer::is_binary('2'));
    assert!(Lexer::is_octal('7') && !Lexer::is_octal('8'));
    assert!(Lexer::is_decimal('9') && !Lexer::is_decimal('a'));
    assert!(Lexer::is_hex('f') && Lexer::is_hex('F') && !Lexer::is_hex('g'));
}

#[test]
fn regions_of_numbers() {
    for (text, end) in [("7", 2), ("42", 3), ("1.5", 4), ("0x1f", 5), ("7i8", 4)] {
        let mut lexer = Lexer::new("f", text);
        let token = lexer.next_token().unwrap();
        assert_eq!(
            token.line_info,
            LineInfo { line_start: 1, line_end: 1, col_start: 1, col_end: end }
        );
        assert!(!lexer.has_next_token());
    }
}

#[test]
fn marked_sums() {
    assert_eq!(
        kinds("+ +% +: - -% -: ->"),
        vec![
            TokenKind::Plus,
            TokenKind::PlusPercent,
            TokenKind::PlusColon,
            TokenKind::Minus,
            TokenKind::MinusPercent,
            TokenKind::MinusColon,
            TokenKind::Arrow,
        ]
    );
}

#[test]
fn spellings_are_read_back() {
    for kind in [
        TokenKind::LParen,
        TokenKind::ShiftLeft,
        TokenKind::NotEq,
        TokenKind::PlusPercent,
        TokenKind::Underscore,
        TokenKind::Compeval,
        TokenKind::DirectiveTrivial,
    ] {
        let repr = kind.get_repr();
        let token = single(&repr[1..repr.len() - 1]);
        assert_eq!(token.kind, kind);
        assert!(token.value.is_none());
    }
}

#[test]
fn blanks_and_comments_between_tokens() {
    assert_eq!(kinds("a /* /* b */ */ // c\n\t d"), vec![TokenKind::Ident, TokenKind::Ident]);
    assert!(!Lexer::new("f", " \n\u{3000}").has_next_token());
}

#[test]
fn steps_count_lines_and_columns() {
    let mut lexer = Lexer::new("f", "ab\n\ncd ?");
    for c in ['a', 'b', '\n', '\n', 'c'] {
        assert_eq!(lexer.advance(), Some(c));
    }
    assert!(lexer.skip_unwanted().is_ok());
    let token = lexer.next_token().unwrap();
    assert_eq!(token.text, "d");
    assert_eq!(token.line_info, LineInfo { line_start: 3, line_end: 3, col_start: 2, col_end: 3 });
    assert_eq!(lexer.advance(), Some('?'));
    assert!(!lexer.has_next_token());
    assert_eq!(lexer.advance(), None);
    assert_eq!(lexer.advance(), None);
}

#[test]
fn unwanted_is_skipped_once() {
    let mut lexer = Lexer::new("f", " // c\n /* d /* e */ */\tx");
    assert!(lexer.has_next_token());
    assert!(lexer.skip_unwanted().is_ok());
    assert!(lexer.skip_unwanted().is_ok());
    assert_eq!(lexer.advance(), Some('x'));
    assert!(Lexer::new("f", "/* d").skip_unwanted().is_err());
    assert!(!Lexer::new("f", "").has_next_token());
}
