use vstd::prelude::*;

use crate::analyzer::analysis::{is_size, SemResult, SemResultView};
use crate::analyzer::{Analyzer, AnalyzerView};
use crate::ast::{Object, ObjectView};
use crate::common::{outcome, CompileError, ErrorView, Settings, Stop, StopView};
use crate::lexer::model::{law_next_token_goes_on, LexState};
use crate::lexer::{initial_state, Lexer};
use crate::parser::model::ParseState;
use crate::parser::{has_room, Parser};
use crate::token::{token_models, Token, TokenKind, TokenView};

verus! {

/// The tokens from a state of the lexer on, after those that were read, up to the end of the text
/// or to the first error.
pub open spec fn tokens_from(s: LexState, read: Seq<TokenView>) -> (
    Seq<TokenView>,
    Option<ErrorView>,
)
    decreases s.text.len() - s.start,
{
    if !(0 <= s.start <= s.index < s.text.len()) {
        (read, None)
    } else {
        proof {
            law_next_token_goes_on(s);
        }
        match s.next_token().result {
            Err(e) => (read, Some(e)),
            Ok(token) => tokens_from(s.next_token().state, read.push(token)),
        }
    }
}

/// The tokens of a text.
pub struct Tokens {
    /// The tokens up to the end of the text or to the first error.
    pub list: Vec<Token>,
    /// What is wrong with the text after them.
    pub error: Option<CompileError>,
}

impl View for Tokens {
    type V = (Seq<TokenView>, Option<ErrorView>);

    open spec fn view(&self) -> (Seq<TokenView>, Option<ErrorView>) {
        (
            token_models(self.list@),
            match self.error {
                Some(e) => Some(e@),
                None => None,
            },
        )
    }
}

/// Reads all tokens of a text.
pub fn tokenize(file_path: &str, text: &str) -> (r: Tokens)
    requires
        text@.len() < isize::MAX,
    ensures
        r@ == tokens_from(initial_state(file_path@, text@), seq![]),
        forall|i: int| 0 <= i < r.list@.len() ==> has_room((#[trigger] r.list@[i])@),
{
    let mut lexer: Lexer = Lexer::new(file_path, text);
    let mut list: Vec<Token> = Vec::new();
    let ghost goal = tokens_from(initial_state(file_path@, text@), seq![]);
    assert(token_models(list@) =~= Seq::<TokenView>::empty());
    while lexer.has_next_token()
        invariant
            lexer.wf(),
            goal == tokens_from(initial_state(file_path@, text@), seq![]),
            goal == tokens_from(lexer@, token_models(list@)),
            forall|i: int| 0 <= i < list@.len() ==> has_room((#[trigger] list@[i])@),
        decreases lexer@.text.len() - lexer@.start,
    {
        proof {
            law_next_token_goes_on(lexer@);
        }
        match lexer.next_token() {
            Err(e) => {
                return Tokens { list, error: Some(e) };
            },
            Ok(token) => {
                let ghost before = list@;
                let ghost model = token@;
                list.push(token);
                assert(token_models(list@) =~= token_models(before).push(model));
            },
        }
    }
    Tokens { list, error: None }
}

/// The program that the tokens of a file stand for.
pub open spec fn program_of(file_path: Seq<char>, tokens: Seq<TokenView>) -> Result<
    ObjectView,
    StopView,
> {
    let s = ParseState { file_path, tokens, index: 0, errors: seq![] };
    match s.program().result {
        Ok(object) => Ok(object),
        Err(e) => Err(StopView::Errors(e)),
    }
}

/// Parses the program that the tokens of a file stand for.
pub fn parse_tokens(file_path: &str, tokens: &Vec<Token>) -> (r: Result<Object, Stop>)
    requires
        forall|i: int| 0 <= i < tokens@.len() ==> has_room((#[trigger] tokens@[i])@),
    ensures
        outcome(r) == program_of(file_path@, token_models(tokens@)),
        r matches Ok(object) ==> object@ is Module,
{
    match Parser::new(file_path, tokens.as_slice()) {
        Err(e) => Err(Stop::Errors(e)),
        Ok(p) => {
            let mut parser: Parser = p;
            match parser.parse() {
                Err(e) => Err(Stop::Errors(e)),
                Ok(object) => Ok(object),
            }
        },
    }
}

/// What the compiler makes of a file: the first error of the lexer, the errors of the parser, the
/// errors of the analysis, or all scopes with the warnings.
pub open spec fn compiled(
    settings: Settings,
    file_path: Seq<char>,
    name: Seq<char>,
    text: Seq<char>,
) -> Result<SemResultView, StopView> {
    match tokens_from(initial_state(file_path, text), seq![]) {
        (_, Some(e)) => Err(StopView::Errors(e)),
        (tokens, None) => match program_of(file_path, tokens) {
            Err(e) => Err(e),
            Ok(object) => AnalyzerView::new(settings, file_path, name, object).analyze(),
        },
    }
}

/// Compiles the text of a file, whose module has the given name.
pub fn compile(settings: Settings, file_path: &str, name: &str, text: &str) -> (r: Result<
    SemResult,
    Stop,
>)
    requires
        is_size(settings.register_size),
        is_size(settings.pointer_size),
        text@.len() < isize::MAX,
    ensures
        outcome(r) == compiled(settings, file_path@, name@, text@),
{
    let tokens: Tokens = tokenize(file_path, text);
    if let Some(e) = tokens.error {
        return Err(Stop::Errors(e));
    }
    match parse_tokens(file_path, &tokens.list) {
        Err(e) => Err(e),
        Ok(object) => Analyzer::new(settings, file_path, name, &object).analyze(),
    }
}

} // verus!
