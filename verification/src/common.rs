use vstd::prelude::*;

use crate::text::to_chars;

verus! {

/// A region of the source text in which lines and columns are mathematical integers.
pub struct Span {
    pub line_start: int,
    pub line_end: int,
    pub col_start: int,
    pub col_end: int,
}

/// A region of the source text: `line_start` and `line_end` are inclusive, `col_end` is exclusive.
#[derive(Copy, Clone, Debug, PartialEq, Eq, Structural)]
pub struct LineInfo {
    pub line_start: usize,
    pub line_end: usize,
    pub col_start: usize,
    pub col_end: usize,
}

impl View for LineInfo {
    type V = Span;

    open spec fn view(&self) -> Span {
        Span {
            line_start: self.line_start as int,
            line_end: self.line_end as int,
            col_start: self.col_start as int,
            col_end: self.col_end as int,
        }
    }
}

impl Default for LineInfo {
    fn default() -> (r: Self)
        ensures
            r@ == (Span { line_start: 1, line_end: 1, col_start: 1, col_end: 1 }),
    {
        LineInfo { line_start: 1, line_end: 1, col_start: 1, col_end: 1 }
    }
}

/// The region from the start of one region to the end of another.
pub open spec fn span_from(start: Span, end: Span) -> Span {
    Span {
        line_start: start.line_start,
        line_end: end.line_end,
        col_start: start.col_start,
        col_end: end.col_end,
    }
}

/// What occupies a region of the source text.
pub trait HasLineInfo {
    /// Whether the value occupies a region at all: an empty list of items does not.
    spec fn has_span(&self) -> bool;

    /// The region that the value occupies.
    spec fn span(&self) -> Span;

    fn get_line_info(&self) -> (r: LineInfo)
        requires
            self.has_span(),
        ensures
            r@ == self.span(),
    ;

    /// Whether the value occupies a region.
    fn has_line_info(&self) -> (r: bool)
        ensures
            r == self.has_span(),
    ;
}

impl HasLineInfo for LineInfo {
    open spec fn has_span(&self) -> bool {
        true
    }

    open spec fn span(&self) -> Span {
        self@
    }

    fn get_line_info(&self) -> (r: LineInfo) {
        *self
    }

    fn has_line_info(&self) -> (r: bool) {
        true
    }
}

impl<T: HasLineInfo> HasLineInfo for Vec<T> {
    open spec fn has_span(&self) -> bool {
        self@.len() > 0 && self@.first().has_span() && self@.last().has_span()
    }

    open spec fn span(&self) -> Span {
        span_from(self@.first().span(), self@.last().span())
    }

    fn get_line_info(&self) -> (r: LineInfo) {
        LineInfo::from_range(&self[0], &self[self.len() - 1])
    }

    fn has_line_info(&self) -> (r: bool) {
        self.len() > 0 && self[0].has_line_info() && self[self.len() - 1].has_line_info()
    }
}

impl<T: HasLineInfo> HasLineInfo for &[T] {
    open spec fn has_span(&self) -> bool {
        self@.len() > 0 && self@.first().has_span() && self@.last().has_span()
    }

    open spec fn span(&self) -> Span {
        span_from(self@.first().span(), self@.last().span())
    }

    fn get_line_info(&self) -> (r: LineInfo) {
        LineInfo::from_range(&self[0], &self[self.len() - 1])
    }

    fn has_line_info(&self) -> (r: bool) {
        self.len() > 0 && self[0].has_line_info() && self[self.len() - 1].has_line_info()
    }
}

impl<T: HasLineInfo> HasLineInfo for Box<T> {
    open spec fn has_span(&self) -> bool {
        (**self).has_span()
    }

    open spec fn span(&self) -> Span {
        (**self).span()
    }

    fn get_line_info(&self) -> (r: LineInfo) {
        (**self).get_line_info()
    }

    fn has_line_info(&self) -> (r: bool) {
        (**self).has_line_info()
    }
}

impl LineInfo {
    /// The region from the start of `start` to the end of `end`.
    pub fn from_range<S: HasLineInfo, E: HasLineInfo>(start: &S, end: &E) -> (r: Self)
        requires
            start.has_span(),
            end.has_span(),
        ensures
            r@ == span_from(start.span(), end.span()),
    {
        LineInfo {
            line_start: start.get_line_info().line_start,
            line_end: end.get_line_info().line_end,
            col_start: start.get_line_info().col_start,
            col_end: end.get_line_info().col_end,
        }
    }

    /// The first position of the region, as a region of its own.
    pub fn begin(&self) -> (r: Self)
        ensures
            r@ == span_begin(self@),
    {
        LineInfo {
            line_start: self.line_start,
            line_end: self.line_start,
            col_start: self.col_start,
            col_end: self.col_start,
        }
    }

    /// The last position of the region, as a region of its own.
    pub fn end(&self) -> (r: Self)
        ensures
            r@ == span_end(self@),
    {
        LineInfo {
            line_start: self.line_end,
            line_end: self.line_end,
            col_start: self.col_end,
            col_end: self.col_end,
        }
    }
}

/// The first position of a region.
pub open spec fn span_begin(s: Span) -> Span {
    Span {
        line_start: s.line_start,
        line_end: s.line_start,
        col_start: s.col_start,
        col_end: s.col_start,
    }
}

/// The last position of a region.
pub open spec fn span_end(s: Span) -> Span {
    Span { line_start: s.line_end, line_end: s.line_end, col_start: s.col_end, col_end: s.col_end }
}

/// A range begins where its first part begins and ends where its last part ends.
pub proof fn law_range_ends(start: Span, end: Span)
    ensures
        span_from(start, end).line_start == start.line_start,
        span_from(start, end).col_start == start.col_start,
        span_end(span_from(start, end)) == span_end(end),
        span_begin(span_from(start, end)) == span_begin(start),
        span_from(start, start) == start,
{
}

/// The last position of a region, as a region of its own.
pub fn end_of(line: LineInfo) -> (r: LineInfo)
    ensures
        r@ == span_end(line@),
{
    line.end()
}

/// What a stage of the compiler has to report.
#[derive(Debug)]
pub enum CompileError {
    LexerError { file_path: String, line_info: LineInfo, msg: String },
    LexerNote { file_path: String, line_info: LineInfo, msg: String },
    ParserError { file_path: String, line_info: LineInfo, msg: String },
    SemError { file_path: String, line_info: LineInfo, msg: String },
    SemWarning { file_path: String, line_info: LineInfo, msg: String },
    SemNote { file_path: String, line_info: LineInfo, msg: String },
    SemNoteWithoutPath { msg: String },
    SemHelp { msg: String },
    SemCyclic { file_path: String, line_info: LineInfo },
    Errors(Vec<CompileError>),
}

/// The model of a report: texts are sequences of characters.
pub enum ErrorView {
    LexerError { file_path: Seq<char>, line_info: Span, msg: Seq<char> },
    LexerNote { file_path: Seq<char>, line_info: Span, msg: Seq<char> },
    ParserError { file_path: Seq<char>, line_info: Span, msg: Seq<char> },
    SemError { file_path: Seq<char>, line_info: Span, msg: Seq<char> },
    SemWarning { file_path: Seq<char>, line_info: Span, msg: Seq<char> },
    SemNote { file_path: Seq<char>, line_info: Span, msg: Seq<char> },
    SemNoteWithoutPath { msg: Seq<char> },
    SemHelp { msg: Seq<char> },
    SemCyclic { file_path: Seq<char>, line_info: Span },
    Errors(Seq<ErrorView>),
}

pub type CompileResult<T> = Result<T, CompileError>;

impl View for CompileError {
    type V = ErrorView;

    open spec fn view(&self) -> ErrorView {
        self.model()
    }
}

impl CompileError {
    /// The model of the report.
    pub open spec fn model(self) -> ErrorView
        decreases self,
    {
        match self {
            CompileError::LexerError { file_path, line_info, msg } => ErrorView::LexerError {
                file_path: file_path@,
                line_info: line_info@,
                msg: msg@,
            },
            CompileError::LexerNote { file_path, line_info, msg } => ErrorView::LexerNote {
                file_path: file_path@,
                line_info: line_info@,
                msg: msg@,
            },
            CompileError::ParserError { file_path, line_info, msg } => ErrorView::ParserError {
                file_path: file_path@,
                line_info: line_info@,
                msg: msg@,
            },
            CompileError::SemError { file_path, line_info, msg } => ErrorView::SemError {
                file_path: file_path@,
                line_info: line_info@,
                msg: msg@,
            },
            CompileError::SemWarning { file_path, line_info, msg } => ErrorView::SemWarning {
                file_path: file_path@,
                line_info: line_info@,
                msg: msg@,
            },
            CompileError::SemNote { file_path, line_info, msg } => ErrorView::SemNote {
                file_path: file_path@,
                line_info: line_info@,
                msg: msg@,
            },
            CompileError::SemNoteWithoutPath { msg } => ErrorView::SemNoteWithoutPath { msg: msg@ },
            CompileError::SemHelp { msg } => ErrorView::SemHelp { msg: msg@ },
            CompileError::SemCyclic { file_path, line_info } => ErrorView::SemCyclic {
                file_path: file_path@,
                line_info: line_info@,
            },
            CompileError::Errors(errs) => ErrorView::Errors(error_models(errs@)),
        }
    }

    /// The report followed by another one. A list of reports grows by the other one,
    /// which stays one entry even where it is a list itself.
    pub fn chain(self, other: CompileError) -> (r: Self)
        ensures
            r@ == self@.chain(other@),
    {
        let ghost before = self;
        let ghost added = other;
        match self {
            CompileError::Errors(errs) => {
                let ghost held = errs@;
                let mut vec: Vec<CompileError> = errs;
                vec.push(other);
                proof {
                    assert(error_models(vec@) == error_models(held).push(added@));
                }
                CompileError::Errors(vec)
            },
            single => {
                let mut vec: Vec<CompileError> = Vec::new();
                vec.push(single);
                vec.push(other);
                proof {
                    assert(error_models(vec@) == seq![before@, added@]);
                }
                CompileError::Errors(vec)
            },
        }
    }

    /// A copy of the report.
    pub fn copy(&self) -> (r: Self)
        ensures
            r@ == self@,
        decreases self,
    {
        match self {
            CompileError::LexerError { file_path, line_info, msg } => CompileError::LexerError {
                file_path: file_path.clone(),
                line_info: *line_info,
                msg: msg.clone(),
            },
            CompileError::LexerNote { file_path, line_info, msg } => CompileError::LexerNote {
                file_path: file_path.clone(),
                line_info: *line_info,
                msg: msg.clone(),
            },
            CompileError::ParserError { file_path, line_info, msg } => CompileError::ParserError {
                file_path: file_path.clone(),
                line_info: *line_info,
                msg: msg.clone(),
            },
            CompileError::SemError { file_path, line_info, msg } => CompileError::SemError {
                file_path: file_path.clone(),
                line_info: *line_info,
                msg: msg.clone(),
            },
            CompileError::SemWarning { file_path, line_info, msg } => CompileError::SemWarning {
                file_path: file_path.clone(),
                line_info: *line_info,
                msg: msg.clone(),
            },
            CompileError::SemNote { file_path, line_info, msg } => CompileError::SemNote {
                file_path: file_path.clone(),
                line_info: *line_info,
                msg: msg.clone(),
            },
            CompileError::SemNoteWithoutPath { msg } => CompileError::SemNoteWithoutPath {
                msg: msg.clone(),
            },
            CompileError::SemHelp { msg } => CompileError::SemHelp { msg: msg.clone() },
            CompileError::SemCyclic { file_path, line_info } => CompileError::SemCyclic {
                file_path: file_path.clone(),
                line_info: *line_info,
            },
            CompileError::Errors(errs) => CompileError::Errors(copy_errors(errs)),
        }
    }

    /// Whether the report is a list without entries.
    pub fn is_empty(&self) -> (r: bool)
        ensures
            r == self@.is_empty(),
    {
        match self {
            CompileError::Errors(errs) => {
                proof {
                    if errs@.len() == 0 {
                        assert(error_models(errs@) == Seq::<ErrorView>::empty());
                    } else {
                        assert(error_models(errs@).len() == errs@.len());
                    }
                }
                errs.len() == 0
            },
            _ => false,
        }
    }
}

/// Why a stage of the compiler does not go on.
#[derive(Debug)]
pub enum Stop {
    /// There is something to report to the user.
    Errors(CompileError),
    /// The program needs what is not supported, or the tree is not one that the parser makes.
    Unsupported(String),
}

/// The model of why a stage of the compiler does not go on.
pub enum StopView {
    Errors(ErrorView),
    Unsupported(Seq<char>),
}

impl View for Stop {
    type V = StopView;

    open spec fn view(&self) -> StopView {
        match *self {
            Stop::Errors(err) => StopView::Errors(err@),
            Stop::Unsupported(msg) => StopView::Unsupported(msg@),
        }
    }
}

/// The model of what comes of a stage, where the value has a model.
pub open spec fn outcome<T: View>(r: Result<T, Stop>) -> Result<T::V, StopView> {
    match r {
        Ok(t) => Ok(t@),
        Err(e) => Err(e@),
    }
}

/// The model of a value that may be absent.
pub open spec fn option_view<T: View>(o: Option<T>) -> Option<T::V> {
    match o {
        Some(t) => Some(t@),
        None => None,
    }
}

/// The model of what comes of a stage, where the value may be absent.
pub open spec fn option_outcome<T: View>(r: Result<Option<T>, Stop>) -> Result<
    Option<T::V>,
    StopView,
> {
    match r {
        Ok(o) => Ok(option_view(o)),
        Err(e) => Err(e@),
    }
}

/// The region of a value, where it occupies one.
pub open spec fn line_or_stop(has_span: bool, span: Span) -> Result<Span, StopView> {
    if has_span {
        Ok(span)
    } else {
        Err(StopView::Unsupported("no line information"@))
    }
}

/// The region of a value, where it occupies one.
pub fn line_of<T: HasLineInfo>(obj: &T) -> (r: Result<LineInfo, Stop>)
    ensures
        outcome(r) == line_or_stop(obj.has_span(), obj.span()),
{
    if obj.has_line_info() {
        Ok(obj.get_line_info())
    } else {
        Err(Stop::Unsupported("no line information".to_owned()))
    }
}

impl CompileError {
    /// Two reports in a list.
    pub fn pair(first: CompileError, second: CompileError) -> (r: Self)
        ensures
            r@ == ErrorView::pair(first@, second@),
    {
        let ghost models = seq![first@, second@];
        let errs: Vec<CompileError> = vec![first, second];
        assert(error_models(errs@) =~= models);
        CompileError::Errors(errs)
    }

    /// Three reports in a list.
    pub fn triple(first: CompileError, second: CompileError, third: CompileError) -> (r: Self)
        ensures
            r@ == ErrorView::triple(first@, second@, third@),
    {
        let ghost models = seq![first@, second@, third@];
        let errs: Vec<CompileError> = vec![first, second, third];
        assert(error_models(errs@) =~= models);
        CompileError::Errors(errs)
    }

    /// Four reports in a list.
    pub fn quadruple(
        first: CompileError,
        second: CompileError,
        third: CompileError,
        fourth: CompileError,
    ) -> (r: Self)
        ensures
            r@ == ErrorView::quadruple(first@, second@, third@, fourth@),
    {
        let ghost models = seq![first@, second@, third@, fourth@];
        let errs: Vec<CompileError> = vec![first, second, third, fourth];
        assert(error_models(errs@) =~= models);
        CompileError::Errors(errs)
    }

    /// No reports.
    pub fn new() -> (r: Self)
        ensures
            r@ == ErrorView::empty(),
    {
        let errs: Vec<CompileError> = Vec::new();
        assert(error_models(errs@) =~= Seq::<ErrorView>::empty());
        CompileError::Errors(errs)
    }

    /// Puts a report at the end of the list.
    pub fn push_err(&mut self, err: CompileError)
        ensures
            final(self)@ == old(self)@.chain(err@),
    {
        let mut held: CompileError = CompileError::Errors(Vec::new());
        std::mem::swap(&mut held, self);
        *self = held.chain(err);
    }
}

impl ErrorView {
    /// The model of no reports.
    pub open spec fn empty() -> ErrorView {
        ErrorView::Errors(seq![])
    }

    /// The model of two reports in a list.
    pub open spec fn pair(first: ErrorView, second: ErrorView) -> ErrorView {
        ErrorView::Errors(seq![first, second])
    }

    /// The model of three reports in a list.
    pub open spec fn triple(first: ErrorView, second: ErrorView, third: ErrorView) -> ErrorView {
        ErrorView::Errors(seq![first, second, third])
    }

    /// The model of four reports in a list.
    pub open spec fn quadruple(
        first: ErrorView,
        second: ErrorView,
        third: ErrorView,
        fourth: ErrorView,
    ) -> ErrorView {
        ErrorView::Errors(seq![first, second, third, fourth])
    }

    /// Whether this is a list without entries.
    pub open spec fn is_empty(self) -> bool {
        self == ErrorView::empty()
    }
}

/// The model of a result whose value has a model.
pub open spec fn result_model<T: View>(r: CompileResult<T>) -> Result<T::V, ErrorView> {
    match r {
        Ok(t) => Ok(t@),
        Err(e) => Err(e@),
    }
}

/// The model of a result whose value is plain.
pub open spec fn plain_result_model<T>(r: CompileResult<T>) -> Result<T, ErrorView> {
    match r {
        Ok(t) => Ok(t),
        Err(e) => Err(e@),
    }
}

/// The models of reports with one more report.
pub broadcast proof fn lemma_error_models_push(errs: Seq<CompileError>, err: CompileError)
    ensures
        #[trigger] error_models(errs.push(err)) == error_models(errs).push(err@),
{
    assert(error_models(errs.push(err)) =~= error_models(errs).push(err@));
}

/// A copy of several reports.
pub fn copy_errors(errs: &Vec<CompileError>) -> (r: Vec<CompileError>)
    ensures
        error_models(r@) == error_models(errs@),
    decreases errs,
{
    let mut copies: Vec<CompileError> = Vec::new();
    let mut i: usize = 0;
    while i < errs.len()
        invariant
            i <= errs@.len(),
            copies@.len() == i,
            forall|k: int| 0 <= k < i ==> (#[trigger] copies@[k]).model() == errs@[k].model(),
        decreases errs@.len() - i,
    {
        assert(decreases_to!(errs => errs@[i as int]));
        copies.push(errs[i].copy());
        i = i + 1;
    }
    assert(error_models(copies@) =~= error_models(errs@));
    copies
}

impl ErrorView {
    /// The model of `CompileError::chain`.
    pub open spec fn chain(self, other: ErrorView) -> ErrorView {
        match self {
            ErrorView::Errors(errs) => ErrorView::Errors(errs.push(other)),
            single => ErrorView::Errors(seq![single, other]),
        }
    }
}

/// The models of several reports.
pub open spec fn error_models(errs: Seq<CompileError>) -> Seq<ErrorView>
    decreases errs,
{
    Seq::new(errs.len(), |i: int| if 0 <= i < errs.len() { errs[i].model() } else { arbitrary() })
}

/// Chaining twice keeps the reports in the order in which they came, after those
/// that the first report held.
pub proof fn law_chain_keeps_order(first: ErrorView, second: ErrorView, third: ErrorView)
    ensures
        first.chain(second).chain(third) == (match first {
            ErrorView::Errors(errs) => ErrorView::Errors(errs + seq![second, third]),
            single => ErrorView::Errors(seq![single, second, third]),
        }),
{
    match first {
        ErrorView::Errors(errs) => {
            assert(errs.push(second).push(third) == errs + seq![second, third]);
        },
        single => {
            assert(seq![single, second].push(third) == seq![single, second, third]);
        },
    }
}

/// The size and the alignment of a type in memory, in bytes.
#[derive(Clone, Copy, Debug, PartialEq, Eq, Structural)]
pub struct Layout {
    pub size: usize,
    pub alignment: usize,
}

impl Default for Layout {
    fn default() -> (r: Self)
        ensures
            r == (Layout { size: 1, alignment: 1 }),
    {
        Layout { size: 1, alignment: 1 }
    }
}

impl View for Layout {
    type V = Layout;

    open spec fn view(&self) -> Layout {
        *self
    }
}

/// The sizes that the compiler works with, in bytes.
#[derive(Clone, Copy, Debug, PartialEq, Eq, Structural)]
pub struct Settings {
    /// Register size of the architecture.
    pub register_size: usize,
    /// Pointer size of the architecture.
    pub pointer_size: usize,
}

/// "s" for every count but one.
pub open spec fn plural_of(count: usize) -> Seq<char> {
    plural(count as int)
}

/// "s" for every count but one.
pub fn get_plural(count: usize) -> (s: &'static str)
    ensures
        s@ == plural(count as int),
{
    if count == 1 {
        ""
    } else {
        "s"
    }
}

/// The plural ending that goes with a count.
pub open spec fn plural(count: int) -> Seq<char> {
    if count == 1 {
        ""@
    } else {
        "s"@
    }
}

/// The edit distance of two texts: how many insertions, removals and replacements of single
/// characters turn one into the other.
pub open spec fn edit_distance(a: Seq<char>, b: Seq<char>) -> nat
    decreases a.len() + b.len(),
{
    if a.len() == 0 {
        b.len()
    } else if b.len() == 0 {
        a.len()
    } else if a.last() == b.last() {
        edit_distance(a.drop_last(), b.drop_last())
    } else {
        1 + min3(
            edit_distance(a.drop_last(), b),
            edit_distance(a, b.drop_last()),
            edit_distance(a.drop_last(), b.drop_last()),
        )
    }
}

/// The least of three numbers.
pub open spec fn min3(x: nat, y: nat, z: nat) -> nat {
    if x <= y && x <= z {
        x
    } else if y <= z {
        y
    } else {
        z
    }
}

/// The edit distance does not depend on the order of the two texts.
pub proof fn law_edit_distance_symmetric(a: Seq<char>, b: Seq<char>)
    ensures
        edit_distance(a, b) == edit_distance(b, a),
    decreases a.len() + b.len(),
{
    if a.len() > 0 && b.len() > 0 {
        law_edit_distance_symmetric(a.drop_last(), b);
        law_edit_distance_symmetric(a, b.drop_last());
        law_edit_distance_symmetric(a.drop_last(), b.drop_last());
    }
}

/// The edit distance is zero exactly for equal texts.
pub proof fn law_edit_distance_zero(a: Seq<char>, b: Seq<char>)
    ensures
        edit_distance(a, b) == 0 <==> a == b,
    decreases a.len() + b.len(),
{
    if a.len() > 0 && b.len() > 0 && a.last() == b.last() {
        law_edit_distance_zero(a.drop_last(), b.drop_last());
        assert(a.drop_last() == b.drop_last() ==> a == b) by {
            assert(a == a.drop_last().push(a.last()));
            assert(b == b.drop_last().push(b.last()));
        }
    } else if a.len() == 0 && b.len() == 0 {
        assert(a == b);
    }
}

/// The edit distance is at most the length of the longer text, and at least what the lengths
/// differ by.
pub proof fn law_edit_distance_bounds(a: Seq<char>, b: Seq<char>)
    ensures
        edit_distance(a, b) <= a.len() || edit_distance(a, b) <= b.len(),
        a.len() <= b.len() + edit_distance(a, b),
        b.len() <= a.len() + edit_distance(a, b),
    decreases a.len() + b.len(),
{
    if a.len() > 0 && b.len() > 0 {
        law_edit_distance_bounds(a.drop_last(), b);
        law_edit_distance_bounds(a, b.drop_last());
        law_edit_distance_bounds(a.drop_last(), b.drop_last());
    }
}

/// Changing the last character of one of the texts changes the distance by at most one.
proof fn lemma_edit_distance_steps(a: Seq<char>, b: Seq<char>)
    ensures
        a.len() > 0 ==> edit_distance(a.drop_last(), b) <= edit_distance(a, b) + 1,
        a.len() > 0 ==> edit_distance(a, b) <= edit_distance(a.drop_last(), b) + 1,
        b.len() > 0 ==> edit_distance(a, b.drop_last()) <= edit_distance(a, b) + 1,
        b.len() > 0 ==> edit_distance(a, b) <= edit_distance(a, b.drop_last()) + 1,
    decreases a.len() + b.len(),
{
    if a.len() > 0 && b.len() > 0 {
        lemma_edit_distance_steps(a.drop_last(), b);
        lemma_edit_distance_steps(a, b.drop_last());
        lemma_edit_distance_steps(a.drop_last(), b.drop_last());
    }
}

/// The edit distance obeys the triangle inequality.
pub proof fn law_edit_distance_triangle(a: Seq<char>, b: Seq<char>, c: Seq<char>)
    ensures
        edit_distance(a, c) <= edit_distance(a, b) + edit_distance(b, c),
    decreases a.len() + b.len() + c.len(),
{
    if a.len() == 0 {
        law_edit_distance_bounds(b, c);
    } else if c.len() == 0 {
        law_edit_distance_bounds(a, b);
    } else if b.len() == 0 {
        law_edit_distance_bounds(a, c);
    } else {
        lemma_edit_distance_steps(a, c);
        lemma_edit_distance_steps(a, b);
        lemma_edit_distance_steps(b, c);
        lemma_edit_distance_steps(a.drop_last(), c);
        lemma_edit_distance_steps(a, c.drop_last());
        lemma_edit_distance_steps(a.drop_last(), c.drop_last());
        lemma_edit_distance_steps(a.drop_last(), b);
        lemma_edit_distance_steps(b, c.drop_last());
        law_edit_distance_triangle(a.drop_last(), b, c);
        law_edit_distance_triangle(a, b, c.drop_last());
        law_edit_distance_triangle(a, b.drop_last(), c);
        law_edit_distance_triangle(a.drop_last(), b.drop_last(), c);
        law_edit_distance_triangle(a, b.drop_last(), c.drop_last());
        law_edit_distance_triangle(a.drop_last(), b, c.drop_last());
        law_edit_distance_triangle(a.drop_last(), b.drop_last(), c.drop_last());
    }
}

fn min_of(x: usize, y: usize) -> (r: usize)
    ensures
        r == if x <= y {
            x
        } else {
            y
        },
{
    if x <= y {
        x
    } else {
        y
    }
}

/// One row of distances: `row[j]` belongs to the first `j` characters of `b`.
spec fn is_row(row: Seq<usize>, a: Seq<char>, b: Seq<char>) -> bool {
    &&& row.len() == b.len() + 1
    &&& forall|j: int| 0 <= j <= b.len() ==> #[trigger] row[j] == edit_distance(a, b.take(j))
}

/// The edit distance of two texts, in the space of one row of the shorter one.
pub fn levenshtein(s1_str: &str, s2_str: &str) -> (r: usize)
    ensures
        r == edit_distance(s1_str@, s2_str@),
    decreases s2_str@.len(),
{
    let s1: Vec<char> = to_chars(s1_str);
    let s2: Vec<char> = to_chars(s2_str);
    let m: usize = s1.len();
    let n: usize = s2.len();
    if m == 0 {
        return n;
    }
    if n == 0 {
        return m;
    }
    // Always use the smaller string for the row
    if m < n {
        proof {
            law_edit_distance_symmetric(s1_str@, s2_str@);
        }
        return levenshtein(s2_str, s1_str);
    }
    let mut prev: Vec<usize> = Vec::new();
    let mut curr: Vec<usize> = Vec::new();
    let mut k: usize = 0;
    while k < n
        invariant
            k <= n,
            n == s2@.len(),
            prev@.len() == k,
            curr@.len() == k,
            forall|j: int| 0 <= j < k ==> #[trigger] prev@[j] == j,
        decreases n - k,
    {
        prev.push(k);
        curr.push(0);
        k = k + 1;
    }
    prev.push(n);
    curr.push(0);
    assert(is_row(prev@, s1@.take(0), s2@));
    let mut i: usize = 0;
    while i < m
        invariant
            i <= m,
            m == s1@.len(),
            n == s2@.len(),
            n <= m,
            0 < n,
            is_row(prev@, s1@.take(i as int), s2@),
            curr@.len() == n + 1,
        decreases m - i,
    {
        curr.set(0, i + 1);
        let ghost a = s1@.take(i as int);
        let ghost a1 = s1@.take(i + 1);
        assert(a1.drop_last() == a);
        let mut j: usize = 0;
        while j < n
            invariant
                j <= n,
                i < m,
                m == s1@.len(),
                n == s2@.len(),
                n <= m,
                a == s1@.take(i as int),
                a1 == s1@.take(i + 1),
                a1.drop_last() == a,
                is_row(prev@, a, s2@),
                curr@.len() == n + 1,
                forall|l: int| 0 <= l <= j ==> #[trigger] curr@[l] == edit_distance(
                    a1,
                    s2@.take(l),
                ),
            decreases n - j,
        {
            proof {
                assert(s2@.take(j + 1).drop_last() == s2@.take(j as int));
                law_edit_distance_bounds(a, s2@.take(j as int));
                assert(prev@[j as int] == edit_distance(a, s2@.take(j as int)));
                assert(prev@[j + 1] == edit_distance(a, s2@.take(j + 1)));
            }
            if s1[i] == s2[j] {
                curr.set(j + 1, prev[j]);
            } else {
                curr.set(j + 1, 1 + min_of(min_of(prev[j + 1], curr[j]), prev[j]));
            }
            j = j + 1;
        }
        std::mem::swap(&mut prev, &mut curr);
        i = i + 1;
    }
    assert(s1@.take(m as int) == s1@);
    assert(s2@.take(n as int) == s2@);
    prev[n]
}


/// Whether one text comes before another in the order of their characters.
pub open spec fn text_before(a: Seq<char>, b: Seq<char>) -> bool
    decreases a.len(),
{
    if b.len() == 0 {
        false
    } else if a.len() == 0 {
        true
    } else if a[0] != b[0] {
        (a[0] as int) < (b[0] as int)
    } else {
        text_before(a.drop_first(), b.drop_first())
    }
}

proof fn lemma_text_before_total(a: Seq<char>, b: Seq<char>)
    ensures
        a == b || text_before(a, b) || text_before(b, a),
        !(text_before(a, b) && text_before(b, a)),
        a == b ==> !text_before(a, b),
    decreases a.len(),
{
    if a.len() > 0 && b.len() > 0 {
        lemma_text_before_total(a.drop_first(), b.drop_first());
        if a[0] == b[0] && a.drop_first() == b.drop_first() {
            assert(a == seq![a[0]] + a.drop_first());
            assert(b == seq![b[0]] + b.drop_first());
        }
    } else if a.len() == 0 && b.len() == 0 {
        assert(a == b);
    }
}

proof fn lemma_text_before_transitive(a: Seq<char>, b: Seq<char>, c: Seq<char>)
    requires
        text_before(a, b),
        text_before(b, c),
    ensures
        text_before(a, c),
    decreases a.len(),
{
    if a.len() > 0 && a[0] == b[0] && b[0] == c[0] {
        lemma_text_before_transitive(a.drop_first(), b.drop_first(), c.drop_first());
    }
}

fn is_before(a: &str, b: &str) -> (r: bool)
    ensures
        r == text_before(a@, b@),
{
    let x: Vec<char> = to_chars(a);
    let y: Vec<char> = to_chars(b);
    let mut i: usize = 0;
    assert(x@.skip(0) == a@);
    assert(y@.skip(0) == b@);
    while i < x.len() && i < y.len() && x[i] == y[i]
        invariant
            i <= x@.len(),
            i <= y@.len(),
            text_before(a@, b@) == text_before(x@.skip(i as int), y@.skip(i as int)),
        decreases x@.len() - i,
    {
        assert(x@.skip(i as int).drop_first() == x@.skip(i + 1));
        assert(y@.skip(i as int).drop_first() == y@.skip(i + 1));
        i = i + 1;
    }
    if i >= y.len() {
        false
    } else if i >= x.len() {
        true
    } else {
        let c: char = x[i];
        let d: char = y[i];
        c < d
    }
}

/// The texts of several strings.
pub open spec fn texts(v: Seq<String>) -> Seq<Seq<char>> {
    v.map_values(|s: String| s@)
}

/// The texts of strings with one more string.
pub broadcast proof fn lemma_texts_push(v: Seq<String>, s: String)
    ensures
        #[trigger] texts(v.push(s)) == texts(v).push(s@),
{
    assert(texts(v.push(s)) =~= texts(v).push(s@));
}

/// The texts of no strings.
pub broadcast proof fn lemma_texts_empty()
    ensures
        #[trigger] texts(Seq::<String>::empty()) == Seq::<Seq<char>>::empty(),
{
    assert(texts(Seq::<String>::empty()) =~= Seq::<Seq<char>>::empty());
}

/// Whether the texts stand in ascending order, each of them once.
pub open spec fn ascending(v: Seq<Seq<char>>) -> bool {
    forall|i: int, j: int| 0 <= i < j < v.len() ==> text_before(#[trigger] v[i], #[trigger] v[j])
}

/// Puts a text into an ascending list, unless it is already there.
fn insert_ascending(v: &mut Vec<String>, s: &String)
    requires
        ascending(texts(old(v)@)),
    ensures
        ascending(texts(final(v)@)),
        texts(final(v)@).to_set() == texts(old(v)@).to_set().insert(s@),
{
    let ghost before = texts(v@);
    let mut i: usize = 0;
    while i < v.len() && is_before(&v[i], s)
        invariant
            i <= v@.len(),
            texts(v@) == before,
            forall|k: int| 0 <= k < i ==> text_before(#[trigger] before[k], s@),
        decreases v@.len() - i,
    {
        assert(before[i as int] == v@[i as int]@);
        i = i + 1;
    }
    if i < v.len() && v[i] == *s {
        proof {
            assert(before[i as int] == s@);
            assert(before.to_set().insert(s@) == before.to_set());
        }
        return;
    }
    v.insert(i, s.clone());
    proof {
        let after = texts(v@);
        assert(after == before.insert(i as int, s@));
        if i < before.len() {
            lemma_text_before_total(before[i as int], s@);
        }
        assert forall|x: int, y: int| 0 <= x < y < after.len() implies text_before(
            #[trigger] after[x],
            #[trigger] after[y],
        ) by {
            if y == i {
                assert(after[x] == before[x]);
            } else if x == i {
                if y - 1 > i {
                    assert(text_before(before[i as int], before[y - 1]));
                    lemma_text_before_transitive(s@, before[i as int], before[y - 1]);
                }
            } else {
                let x0 = if x < i {
                    x
                } else {
                    x - 1
                };
                let y0 = if y < i {
                    y
                } else {
                    y - 1
                };
                assert(text_before(before[x0], before[y0]));
            }
        }
        assert forall|t: Seq<char>| after.to_set().contains(t) == before.to_set().insert(
            s@,
        ).contains(t) by {
            if after.contains(t) {
                let x = choose|x: int| 0 <= x < after.len() && after[x] == t;
                if x < i {
                    assert(before[x] == t);
                } else if x > i {
                    assert(before[x - 1] == t);
                }
            }
            if before.contains(t) {
                let x = choose|x: int| 0 <= x < before.len() && before[x] == t;
                if x < i {
                    assert(after[x] == t);
                } else {
                    assert(after[x + 1] == t);
                }
            }
            assert(after[i as int] == s@);
        }
        assert(after.to_set() =~= before.to_set().insert(s@));
    }
}

/// Whether a name is internal to the compiler.
pub open spec fn is_internal_name(name: Seq<char>) -> bool {
    name.len() > 0 && name.last() == '$'
}

/// The names closest to `query` among the candidates from `i` on, where `found` holds those
/// at distance `best` among the earlier ones. The search ends early once `limit` names stand
/// at the least distance seen so far.
pub open spec fn closest_names(
    query: Seq<char>,
    candidates: Seq<Seq<char>>,
    i: int,
    limit: int,
    best: int,
    found: Set<Seq<char>>,
) -> Set<Seq<char>>
    decreases candidates.len() - i,
{
    if i < 0 || i >= candidates.len() {
        found
    } else if is_internal_name(candidates[i]) {
        closest_names(query, candidates, i + 1, limit, best, found)
    } else {
        let distance = edit_distance(query, candidates[i]) as int;
        let next = if distance < best {
            set![candidates[i]]
        } else if distance == best {
            found.insert(candidates[i])
        } else {
            found
        };
        let least = if distance < best {
            distance
        } else {
            best
        };
        if next.len() >= limit && distance == least {
            next
        } else {
            closest_names(query, candidates, i + 1, limit, least, next)
        }
    }
}

proof fn lemma_ascending_len(v: Seq<Seq<char>>)
    requires
        ascending(v),
    ensures
        v.to_set().len() == v.len(),
        v.to_set().finite(),
{
    assert forall|i: int, j: int| 0 <= i < j < v.len() implies v[i] != v[j] by {
        lemma_text_before_total(v[i], v[j]);
    }
    assert(v.no_duplicates());
    v.unique_seq_to_set();
}

/// The candidates closest to `query` by edit distance, in ascending order. Names that are
/// internal to the compiler are passed over. The candidates are looked at in the given order
/// until `max_results` of them, by default 6, stand at the least distance seen so far.
pub fn fuzzy_search_best(
    query: &str,
    candidates: &Vec<String>,
    max_results: Option<usize>,
) -> (results: Vec<String>)
    ensures
        ascending(texts(results@)),
        texts(results@).to_set() == closest_names(
            query@,
            texts(candidates@),
            0,
            if max_results is Some {
                max_results->0 as int
            } else {
                6
            },
            usize::MAX as int,
            Set::empty(),
        ),
{
    let limit: usize = max_results.unwrap_or(6);
    let mut min_distance: usize = usize::MAX;
    let mut results: Vec<String> = Vec::new();
    let ghost goal = closest_names(
        query@,
        texts(candidates@),
        0,
        limit as int,
        usize::MAX as int,
        Set::empty(),
    );
    assert(texts(results@).to_set() =~= Set::empty());
    let mut i: usize = 0;
    while i < candidates.len()
        invariant
            i <= candidates@.len(),
            ascending(texts(results@)),
            limit == (if max_results is Some {
                max_results->0
            } else {
                6
            }),
            goal == closest_names(
                query@,
                texts(candidates@),
                0,
                limit as int,
                usize::MAX as int,
                Set::empty(),
            ),
            goal == closest_names(
                query@,
                texts(candidates@),
                i as int,
                limit as int,
                min_distance as int,
                texts(results@).to_set(),
            ),
        decreases candidates@.len() - i,
    {
        let candidate: &String = &candidates[i];
        assert(texts(candidates@)[i as int] == candidate@);
        let chars: Vec<char> = to_chars(candidate);
        // Ignore internal names
        if chars.len() > 0 && chars[chars.len() - 1] == '$' {
            i = i + 1;
            continue;
        }
        let distance: usize = levenshtein(query, candidate);
        if distance < min_distance {
            min_distance = distance;
            results = Vec::new();
            assert(texts(results@).to_set().insert(candidate@) =~= set![candidate@]);
            insert_ascending(&mut results, candidate);
        } else if distance == min_distance {
            insert_ascending(&mut results, candidate);
        }
        proof {
            lemma_ascending_len(texts(results@));
        }
        // Check whether we reach max results or not
        if results.len() >= limit && distance == min_distance {
            return results;
        }
        i = i + 1;
    }
    results
}

proof fn lemma_ascending_first(v: Seq<Seq<char>>, x: Seq<char>)
    requires
        ascending(v),
        v.contains(x),
    ensures
        v.len() > 0,
        v[0] == x || text_before(v[0], x),
{
    let i = v.index_of(x);
    assert(v[i] == x);
    if i > 0 {
        assert(text_before(v[0], v[i]));
    }
}

/// There is only one way to put names in ascending order.
pub proof fn lemma_ascending_unique(v: Seq<Seq<char>>, w: Seq<Seq<char>>)
    requires
        ascending(v),
        ascending(w),
        v.to_set() == w.to_set(),
    ensures
        v == w,
    decreases v.len(),
{
    if v.len() == 0 {
        if w.len() > 0 {
            assert(w.to_set().contains(w[0]));
            assert(v.to_set().contains(w[0]));
        }
        assert(v =~= w);
    } else {
        assert(v.to_set().contains(v[0]));
        assert(w.to_set().contains(v[0]));
        lemma_ascending_first(w, v[0]);
        assert(w.to_set().contains(w[0]));
        assert(v.to_set().contains(w[0]));
        lemma_ascending_first(v, w[0]);
        lemma_text_before_total(v[0], w[0]);
        assert(v[0] == w[0]);
        let vr = v.drop_first();
        let wr = w.drop_first();
        assert forall|i: int, j: int| 0 <= i < j < vr.len() implies text_before(vr[i], vr[j]) by {
            assert(text_before(v[i + 1], v[j + 1]));
        }
        assert forall|i: int, j: int| 0 <= i < j < wr.len() implies text_before(wr[i], wr[j]) by {
            assert(text_before(w[i + 1], w[j + 1]));
        }
        assert forall|x: Seq<char>| vr.to_set().contains(x) implies wr.to_set().contains(x) by {
            let i = vr.index_of(x);
            assert(v[i + 1] == x);
            assert(text_before(v[0], v[i + 1]));
            lemma_text_before_total(v[0], x);
            assert(v.to_set().contains(x));
            assert(w.to_set().contains(x));
            let j = w.index_of(x);
            assert(w[j] == x);
            assert(wr[j - 1] == x);
        }
        assert forall|x: Seq<char>| wr.to_set().contains(x) implies vr.to_set().contains(x) by {
            let i = wr.index_of(x);
            assert(w[i + 1] == x);
            assert(text_before(w[0], w[i + 1]));
            lemma_text_before_total(w[0], x);
            assert(w.to_set().contains(x));
            assert(v.to_set().contains(x));
            let j = v.index_of(x);
            assert(v[j] == x);
            assert(vr[j - 1] == x);
        }
        assert(vr.to_set() =~= wr.to_set());
        lemma_ascending_unique(vr, wr);
        assert(v =~= seq![v[0]] + vr);
        assert(w =~= seq![w[0]] + wr);
    }
}

/// The names closest to a name, in ascending order.
pub open spec fn suggestions(query: Seq<char>, candidates: Seq<Seq<char>>) -> Seq<Seq<char>> {
    let found = closest_names(query, candidates, 0, 6, usize::MAX as int, Set::empty());
    choose|v: Seq<Seq<char>>| ascending(v) && v.to_set() == found
}

/// The names closest to a name, in ascending order.
pub fn suggest(query: &str, candidates: &Vec<String>) -> (r: Vec<String>)
    ensures
        texts(r@) == suggestions(query@, texts(candidates@)),
{
    let results: Vec<String> = fuzzy_search_best(query, candidates, None);
    proof {
        let found = closest_names(
            query@,
            texts(candidates@),
            0,
            6,
            usize::MAX as int,
            Set::empty(),
        );
        let v = texts(results@);
        assert(ascending(v) && v.to_set() == found);
        lemma_ascending_unique(v, suggestions(query@, texts(candidates@)));
    }
    results
}

/// The candidates that are not internal.
pub open spec fn eligible(candidates: Seq<Seq<char>>) -> Set<Seq<char>> {
    candidates.to_set().filter(|name: Seq<char>| !is_internal_name(name))
}

/// The search finds exactly the names at the least distance, if the limit is not below the number
/// of candidates that are not internal: a name is found if and only if it is one of them, and none
/// of them is closer.
pub proof fn law_fuzzy_search_is_exact(query: Seq<char>, candidates: Seq<Seq<char>>, limit: int)
    requires
        limit >= eligible(candidates).len(),
        forall|k: int|
            0 <= k < candidates.len() ==> edit_distance(query, #[trigger] candidates[k])
                < usize::MAX,
    ensures
        forall|name: Seq<char>|
            #![auto]
            closest_names(query, candidates, 0, limit, usize::MAX as int, Set::empty()).contains(
                name,
            ) <==> is_closest(query, candidates, name),
{
    lemma_closest_names(query, candidates, 0, limit, usize::MAX as int, Set::empty());
}

/// Whether `name` is a candidate, not internal, and at least as close as every other such
/// candidate.
pub open spec fn is_closest(
    query: Seq<char>,
    candidates: Seq<Seq<char>>,
    name: Seq<char>,
) -> bool {
    &&& candidates.contains(name)
    &&& !is_internal_name(name)
    &&& forall|k: int|
        0 <= k < candidates.len() && !is_internal_name(#[trigger] candidates[k]) ==> edit_distance(
            query,
            name,
        ) <= edit_distance(query, candidates[k])
}

proof fn lemma_closest_names(
    query: Seq<char>,
    candidates: Seq<Seq<char>>,
    i: int,
    limit: int,
    best: int,
    found: Set<Seq<char>>,
)
    requires
        0 <= i <= candidates.len(),
        limit >= eligible(candidates).len(),
        found.finite(),
        forall|k: int|
            0 <= k < candidates.len() ==> edit_distance(query, #[trigger] candidates[k])
                < usize::MAX,
        best == usize::MAX ==> found == Set::<Seq<char>>::empty(),
        forall|k: int|
            0 <= k < i && !is_internal_name(#[trigger] candidates[k]) ==> best <= edit_distance(
                query,
                candidates[k],
            ),
        forall|name: Seq<char>|
            #![trigger found.contains(name)]
            found.contains(name) <==> (seen(candidates, i, name) && !is_internal_name(name)
                && edit_distance(query, name) == best),
        best < usize::MAX ==> found.len() > 0,
        best <= usize::MAX,
    ensures
        forall|name: Seq<char>|
            #![auto]
            closest_names(query, candidates, i, limit, best, found).contains(name) <==> is_closest(
                query,
                candidates,
                name,
            ),
    decreases candidates.len() - i,
{
    if i == candidates.len() {
        assert forall|name: Seq<char>|
            #![auto]
            found.contains(name) <==> is_closest(query, candidates, name) by {
            if is_closest(query, candidates, name) && !found.contains(name) {
                let k = candidates.index_of(name);
                assert(candidates[k] == name);
                assert(seen(candidates, i, name));
                if best < usize::MAX {
                    let other = found.choose();
                    assert(found.contains(other));
                    let k2 = choose|k2: int| 0 <= k2 < i && #[trigger] candidates[k2] == other;
                    assert(candidates[k2] == other);
                }
            }
        }
    } else {
        let c = candidates[i];
        assert forall|name: Seq<char>|
            #![auto]
            seen(candidates, i + 1, name) <==> (seen(candidates, i, name) || name == c) by {
            if seen(candidates, i + 1, name) {
                let k = choose|k: int| 0 <= k < i + 1 && #[trigger] candidates[k] == name;
                assert(candidates[k] == name);
            }
            assert(candidates[i] == c);
        }
        if is_internal_name(c) {
            lemma_closest_names(query, candidates, i + 1, limit, best, found);
        } else {
            let distance = edit_distance(query, c) as int;
            let next = if distance < best {
                set![c]
            } else if distance == best {
                found.insert(c)
            } else {
                found
            };
            let least = if distance < best {
                distance
            } else {
                best
            };
            if distance < best {
                assert forall|name: Seq<char>|
                    #![auto]
                    seen(candidates, i, name) && !is_internal_name(name) implies edit_distance(
                    query,
                    name,
                ) != distance by {
                    let k = choose|k: int| 0 <= k < i && #[trigger] candidates[k] == name;
                    assert(candidates[k] == name);
                }
            }
            assert forall|name: Seq<char>|
                #![trigger next.contains(name)]
                next.contains(name) <==> (seen(candidates, i + 1, name) && !is_internal_name(name)
                    && edit_distance(query, name) == least) by {}
            if next.len() >= limit && distance == least {
                lemma_all_found(query, candidates, i + 1, least, next);
            } else {
                lemma_closest_names(query, candidates, i + 1, limit, least, next);
            }
        }
    }
}

/// Names that are as many as there can be are all there are.
proof fn lemma_all_found(
    query: Seq<char>,
    candidates: Seq<Seq<char>>,
    i: int,
    best: int,
    found: Set<Seq<char>>,
)
    requires
        0 <= i <= candidates.len(),
        found.finite(),
        found.len() >= eligible(candidates).len(),
        forall|name: Seq<char>|
            #![trigger found.contains(name)]
            found.contains(name) <==> (seen(candidates, i, name) && !is_internal_name(name)
                && edit_distance(query, name) == best),
    ensures
        forall|name: Seq<char>|
            #![auto]
            found.contains(name) <==> is_closest(query, candidates, name),
{
    let all = eligible(candidates);
    vstd::seq_lib::seq_to_set_is_finite(candidates);
    candidates.to_set().lemma_len_filter(|name: Seq<char>| !is_internal_name(name));
    assert forall|name: Seq<char>| found.contains(name) implies #[trigger] all.contains(name) by {
        let k = choose|k: int| 0 <= k < i && #[trigger] candidates[k] == name;
        assert(candidates[k] == name);
    }
    assert(found.subset_of(all));
    vstd::set_lib::lemma_len_subset(found, all);
    vstd::set_lib::lemma_subset_equality(found, all);
    assert forall|name: Seq<char>|
        #![auto]
        found.contains(name) <==> is_closest(query, candidates, name) by {
        if found.contains(name) {
            assert(all.contains(name));
            assert forall|k: int|
                0 <= k < candidates.len() && !is_internal_name(
                    #[trigger] candidates[k],
                ) implies edit_distance(query, name) <= edit_distance(query, candidates[k]) by {
                assert(all.contains(candidates[k]));
                assert(found.contains(candidates[k]));
            }
        } else if is_closest(query, candidates, name) {
            assert(all.contains(name));
        }
    }
}

/// Whether `name` is one of the first `i` candidates.
spec fn seen(candidates: Seq<Seq<char>>, i: int, name: Seq<char>) -> bool {
    exists|k: int| 0 <= k < i && #[trigger] candidates[k] == name
}

} // verus!
