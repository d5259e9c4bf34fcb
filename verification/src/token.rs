use vstd::prelude::*;

use crate::bigint::Int;
use crate::common::{HasLineInfo, LineInfo, Span};
use crate::text::same_text;

verus! {

/// The kinds of tokens.
#[derive(Clone, Copy, Debug, PartialEq, Eq, Structural)]
pub enum TokenKind {
    LParen,
    RParen,
    LBrace,
    RBrace,
    LBrack,
    RBrack,
    LAngle,
    RAngle,
    Comma,
    Colon,
    Semicolon,
    Equal,
    Arrow,
    Dot,
    Tilde,
    Star,
    Slash,
    Percent,
    Plus,
    PlusPercent,
    PlusColon,
    Minus,
    MinusPercent,
    MinusColon,
    Ampersand,
    Caret,
    Pipe,
    ShiftLeft,
    ShiftRight,
    LessEq,
    EqEq,
    NotEq,
    GreaterEq,
    Label,
    Ident,
    StringLit,
    IntLit,
    FloatLit,
    True,
    False,
    As,
    Fun,
    Const,
    Void,
    Noreturn,
    Typedef,
    Underscore,
    Not,
    And,
    Or,
    If,
    While,
    Yield,
    Continue,
    Break,
    Return,
    Else,
    Module,
    Struct,
    Union,
    Using,
    Sizeof,
    Typeof,
    Alignof,
    Compeval,
    DirectiveZero,
    DirectiveUninit,
    DirectiveGhost,
    DirectiveDefault,
    DirectiveTrivial,
}

/// How a kind of token is shown to the user.
pub open spec fn kind_repr(kind: TokenKind) -> Seq<char> {
    match kind {
        TokenKind::LParen => "'('"@,
        TokenKind::RParen => "')'"@,
        TokenKind::LBrace => "'{'"@,
        TokenKind::RBrace => "'}'"@,
        TokenKind::LBrack => "'['"@,
        TokenKind::RBrack => "']'"@,
        TokenKind::LAngle => "'<'"@,
        TokenKind::RAngle => "'>'"@,
        TokenKind::Comma => "','"@,
        TokenKind::Colon => "':'"@,
        TokenKind::Semicolon => "';'"@,
        TokenKind::Equal => "'='"@,
        TokenKind::Arrow => "'->'"@,
        TokenKind::Dot => "'.'"@,
        TokenKind::Tilde => "'~'"@,
        TokenKind::Star => "'*'"@,
        TokenKind::Slash => "'/'"@,
        TokenKind::Percent => "'%'"@,
        TokenKind::Plus => "'+'"@,
        TokenKind::PlusPercent => "'+%'"@,
        TokenKind::PlusColon => "'+:'"@,
        TokenKind::Minus => "'-'"@,
        TokenKind::MinusPercent => "'-%'"@,
        TokenKind::MinusColon => "'-:'"@,
        TokenKind::Ampersand => "'&'"@,
        TokenKind::Caret => "'^'"@,
        TokenKind::Pipe => "'|'"@,
        TokenKind::ShiftLeft => "'<<'"@,
        TokenKind::ShiftRight => "'>>'"@,
        TokenKind::LessEq => "'<='"@,
        TokenKind::EqEq => "'=='"@,
        TokenKind::NotEq => "'!='"@,
        TokenKind::GreaterEq => "'>='"@,
        TokenKind::Label => "<$label>"@,
        TokenKind::Ident => "<identifier>"@,
        TokenKind::StringLit => "<string>"@,
        TokenKind::IntLit => "<integer>"@,
        TokenKind::FloatLit => "<float>"@,
        TokenKind::True => "'true'"@,
        TokenKind::False => "'false'"@,
        TokenKind::As => "'as'"@,
        TokenKind::Fun => "'fun'"@,
        TokenKind::Const => "'const'"@,
        TokenKind::Void => "'void'"@,
        TokenKind::Noreturn => "'noreturn'"@,
        TokenKind::Typedef => "'typedef'"@,
        TokenKind::Underscore => "'_'"@,
        TokenKind::Not => "'not'"@,
        TokenKind::And => "'and'"@,
        TokenKind::Or => "'or'"@,
        TokenKind::If => "'if'"@,
        TokenKind::While => "'while'"@,
        TokenKind::Yield => "'yield'"@,
        TokenKind::Continue => "'continue'"@,
        TokenKind::Break => "'break'"@,
        TokenKind::Return => "'return'"@,
        TokenKind::Else => "'else'"@,
        TokenKind::Module => "'module'"@,
        TokenKind::Struct => "'struct'"@,
        TokenKind::Union => "'union'"@,
        TokenKind::Using => "'using'"@,
        TokenKind::Sizeof => "'sizeof'"@,
        TokenKind::Typeof => "'typeof'"@,
        TokenKind::Alignof => "'alignof'"@,
        TokenKind::Compeval => "'compeval'"@,
        TokenKind::DirectiveZero => "'#zero'"@,
        TokenKind::DirectiveUninit => "'#uninit'"@,
        TokenKind::DirectiveGhost => "'#ghost'"@,
        TokenKind::DirectiveDefault => "'#default'"@,
        TokenKind::DirectiveTrivial => "'#trivial'"@,
    }
}

impl TokenKind {
    /// How the kind is shown to the user.
    pub fn get_repr(&self) -> (s: &'static str)
        ensures
            s@ == kind_repr(*self),
    {
        match self {
            TokenKind::LParen => "'('",
            TokenKind::RParen => "')'",
            TokenKind::LBrace => "'{'",
            TokenKind::RBrace => "'}'",
            TokenKind::LBrack => "'['",
            TokenKind::RBrack => "']'",
            TokenKind::LAngle => "'<'",
            TokenKind::RAngle => "'>'",
            TokenKind::Comma => "','",
            TokenKind::Colon => "':'",
            TokenKind::Semicolon => "';'",
            TokenKind::Equal => "'='",
            TokenKind::Arrow => "'->'",
            TokenKind::Dot => "'.'",
            TokenKind::Tilde => "'~'",
            TokenKind::Star => "'*'",
            TokenKind::Slash => "'/'",
            TokenKind::Percent => "'%'",
            TokenKind::Plus => "'+'",
            TokenKind::PlusPercent => "'+%'",
            TokenKind::PlusColon => "'+:'",
            TokenKind::Minus => "'-'",
            TokenKind::MinusPercent => "'-%'",
            TokenKind::MinusColon => "'-:'",
            TokenKind::Ampersand => "'&'",
            TokenKind::Caret => "'^'",
            TokenKind::Pipe => "'|'",
            TokenKind::ShiftLeft => "'<<'",
            TokenKind::ShiftRight => "'>>'",
            TokenKind::LessEq => "'<='",
            TokenKind::EqEq => "'=='",
            TokenKind::NotEq => "'!='",
            TokenKind::GreaterEq => "'>='",
            TokenKind::Label => "<$label>",
            TokenKind::Ident => "<identifier>",
            TokenKind::StringLit => "<string>",
            TokenKind::IntLit => "<integer>",
            TokenKind::FloatLit => "<float>",
            TokenKind::True => "'true'",
            TokenKind::False => "'false'",
            TokenKind::As => "'as'",
            TokenKind::Fun => "'fun'",
            TokenKind::Const => "'const'",
            TokenKind::Void => "'void'",
            TokenKind::Noreturn => "'noreturn'",
            TokenKind::Typedef => "'typedef'",
            TokenKind::Underscore => "'_'",
            TokenKind::Not => "'not'",
            TokenKind::And => "'and'",
            TokenKind::Or => "'or'",
            TokenKind::If => "'if'",
            TokenKind::While => "'while'",
            TokenKind::Yield => "'yield'",
            TokenKind::Continue => "'continue'",
            TokenKind::Break => "'break'",
            TokenKind::Return => "'return'",
            TokenKind::Else => "'else'",
            TokenKind::Module => "'module'",
            TokenKind::Struct => "'struct'",
            TokenKind::Union => "'union'",
            TokenKind::Using => "'using'",
            TokenKind::Sizeof => "'sizeof'",
            TokenKind::Typeof => "'typeof'",
            TokenKind::Alignof => "'alignof'",
            TokenKind::Compeval => "'compeval'",
            TokenKind::DirectiveZero => "'#zero'",
            TokenKind::DirectiveUninit => "'#uninit'",
            TokenKind::DirectiveGhost => "'#ghost'",
            TokenKind::DirectiveDefault => "'#default'",
            TokenKind::DirectiveTrivial => "'#trivial'",
        }
    }
}

/// The kind of a word: a keyword, a directive, or an identifier.
pub open spec fn word_kind(text: Seq<char>) -> TokenKind {
    if text == "true"@ {
        TokenKind::True
    } else if text == "false"@ {
        TokenKind::False
    } else if text == "if"@ {
        TokenKind::If
    } else if text == "while"@ {
        TokenKind::While
    } else if text == "yield"@ {
        TokenKind::Yield
    } else if text == "continue"@ {
        TokenKind::Continue
    } else if text == "break"@ {
        TokenKind::Break
    } else if text == "return"@ {
        TokenKind::Return
    } else if text == "as"@ {
        TokenKind::As
    } else if text == "fun"@ {
        TokenKind::Fun
    } else if text == "const"@ {
        TokenKind::Const
    } else if text == "void"@ {
        TokenKind::Void
    } else if text == "noreturn"@ {
        TokenKind::Noreturn
    } else if text == "typedef"@ {
        TokenKind::Typedef
    } else if text == "_"@ {
        TokenKind::Underscore
    } else if text == "not"@ {
        TokenKind::Not
    } else if text == "and"@ {
        TokenKind::And
    } else if text == "or"@ {
        TokenKind::Or
    } else if text == "else"@ {
        TokenKind::Else
    } else if text == "module"@ {
        TokenKind::Module
    } else if text == "struct"@ {
        TokenKind::Struct
    } else if text == "union"@ {
        TokenKind::Union
    } else if text == "using"@ {
        TokenKind::Using
    } else if text == "sizeof"@ {
        TokenKind::Sizeof
    } else if text == "typeof"@ {
        TokenKind::Typeof
    } else if text == "alignof"@ {
        TokenKind::Alignof
    } else if text == "compeval"@ {
        TokenKind::Compeval
    } else if text == "#zero"@ {
        TokenKind::DirectiveZero
    } else if text == "#uninit"@ {
        TokenKind::DirectiveUninit
    } else if text == "#ghost"@ {
        TokenKind::DirectiveGhost
    } else if text == "#default"@ {
        TokenKind::DirectiveDefault
    } else if text == "#trivial"@ {
        TokenKind::DirectiveTrivial
    } else {
        TokenKind::Ident
    }
}

/// The kind of a word: a keyword, a directive, or an identifier.
pub fn get_word_kind(text: &str) -> (kind: TokenKind)
    ensures
        kind == word_kind(text@),
{
    if same_text(text, "true") {
        TokenKind::True
    } else if same_text(text, "false") {
        TokenKind::False
    } else if same_text(text, "if") {
        TokenKind::If
    } else if same_text(text, "while") {
        TokenKind::While
    } else if same_text(text, "yield") {
        TokenKind::Yield
    } else if same_text(text, "continue") {
        TokenKind::Continue
    } else if same_text(text, "break") {
        TokenKind::Break
    } else if same_text(text, "return") {
        TokenKind::Return
    } else if same_text(text, "as") {
        TokenKind::As
    } else if same_text(text, "fun") {
        TokenKind::Fun
    } else if same_text(text, "const") {
        TokenKind::Const
    } else if same_text(text, "void") {
        TokenKind::Void
    } else if same_text(text, "noreturn") {
        TokenKind::Noreturn
    } else if same_text(text, "typedef") {
        TokenKind::Typedef
    } else if same_text(text, "_") {
        TokenKind::Underscore
    } else if same_text(text, "not") {
        TokenKind::Not
    } else if same_text(text, "and") {
        TokenKind::And
    } else if same_text(text, "or") {
        TokenKind::Or
    } else if same_text(text, "else") {
        TokenKind::Else
    } else if same_text(text, "module") {
        TokenKind::Module
    } else if same_text(text, "struct") {
        TokenKind::Struct
    } else if same_text(text, "union") {
        TokenKind::Union
    } else if same_text(text, "using") {
        TokenKind::Using
    } else if same_text(text, "sizeof") {
        TokenKind::Sizeof
    } else if same_text(text, "typeof") {
        TokenKind::Typeof
    } else if same_text(text, "alignof") {
        TokenKind::Alignof
    } else if same_text(text, "compeval") {
        TokenKind::Compeval
    } else if same_text(text, "#zero") {
        TokenKind::DirectiveZero
    } else if same_text(text, "#uninit") {
        TokenKind::DirectiveUninit
    } else if same_text(text, "#ghost") {
        TokenKind::DirectiveGhost
    } else if same_text(text, "#default") {
        TokenKind::DirectiveDefault
    } else if same_text(text, "#trivial") {
        TokenKind::DirectiveTrivial
    } else {
        TokenKind::Ident
    }
}

/// The type that the suffix of a number asks for.
#[derive(Clone, Copy, Debug, PartialEq, Eq, Structural)]
pub enum TokenSuffix {
    I8,
    I16,
    I32,
    I64,
    I128,
    ISize,
    U8,
    U16,
    U32,
    U64,
    U128,
    USize,
    F32,
    F64,
}

/// The value of a literal.
#[derive(Debug)]
pub enum TokenValue {
    String(String),
    Int { integral: Int, suffix: Option<TokenSuffix> },
    Float { integral: Int, fractional: Int, mantissa: Int, suffix: Option<TokenSuffix> },
}

/// The model of the value of a literal.
pub enum TokenValueView {
    String(Seq<char>),
    Int { integral: int, suffix: Option<TokenSuffix> },
    Float { integral: int, fractional: int, mantissa: int, suffix: Option<TokenSuffix> },
}

impl View for TokenValue {
    type V = TokenValueView;

    open spec fn view(&self) -> TokenValueView {
        match *self {
            TokenValue::String(s) => TokenValueView::String(s@),
            TokenValue::Int { integral, suffix } => TokenValueView::Int {
                integral: integral@,
                suffix,
            },
            TokenValue::Float { integral, fractional, mantissa, suffix } => TokenValueView::Float {
                integral: integral@,
                fractional: fractional@,
                mantissa: mantissa@,
                suffix,
            },
        }
    }
}

impl TokenValue {
    /// A copy of the value.
    pub fn copy(&self) -> (r: Self)
        ensures
            r@ == self@,
    {
        match self {
            TokenValue::String(s) => TokenValue::String(s.clone()),
            TokenValue::Int { integral, suffix } => TokenValue::Int {
                integral: integral.copy(),
                suffix: *suffix,
            },
            TokenValue::Float { integral, fractional, mantissa, suffix } => TokenValue::Float {
                integral: integral.copy(),
                fractional: fractional.copy(),
                mantissa: mantissa.copy(),
                suffix: *suffix,
            },
        }
    }
}

/// A token of the source text.
#[derive(Debug)]
pub struct Token {
    pub line_info: LineInfo,
    pub kind: TokenKind,
    pub text: String,
    pub value: Option<TokenValue>,
}

/// The model of a token.
pub struct TokenView {
    pub line_info: Span,
    pub kind: TokenKind,
    pub text: Seq<char>,
    pub value: Option<TokenValueView>,
}

impl View for Token {
    type V = TokenView;

    open spec fn view(&self) -> TokenView {
        TokenView {
            line_info: self.line_info@,
            kind: self.kind,
            text: self.text@,
            value: match self.value {
                Some(v) => Some(v@),
                None => None,
            },
        }
    }
}

/// The models of several tokens.
pub open spec fn token_models(tokens: Seq<Token>) -> Seq<TokenView> {
    tokens.map_values(|t: Token| t@)
}

impl HasLineInfo for Token {
    open spec fn has_span(&self) -> bool {
        true
    }

    open spec fn span(&self) -> Span {
        self.line_info@
    }

    fn get_line_info(&self) -> (r: LineInfo) {
        self.line_info
    }

    fn has_line_info(&self) -> (r: bool) {
        true
    }
}

impl Token {
    /// A copy of the token.
    pub fn copy(&self) -> (r: Self)
        ensures
            r@ == self@,
    {
        Token {
            line_info: self.line_info,
            kind: self.kind,
            text: self.text.clone(),
            value: match &self.value {
                Some(v) => Some(v.copy()),
                None => None,
            },
        }
    }
}

} // verus!
