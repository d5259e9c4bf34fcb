use vstd::prelude::*;

use crate::analyzer::{
    group_analyzer, lemma_begin, Analyzer, AnalyzerView, ScopeEvalState, ScopeEvalStateView,
    ScopeNode, ScopeNodeView,
};
use crate::common::{
    lemma_texts_push, option_outcome, option_view, outcome, suggest, suggestions, texts,
    CompileError, ErrorView, LineInfo, Span, Stop, StopView,
};
use crate::context::{Context, ContextView, Imm, ImmView, Type, TypeView, Value, ValueView};
use crate::scope::{Payload, PayloadView, ScopeId, ScopeIdView, ScopeKind};
use crate::table::{Table, TableView};
use crate::text::{join2, same_text};
use crate::token::{Token, TokenView};

verus! {

/// Names in quotes with commas between them, from the `i`-th on.
pub open spec fn quoted(names: Seq<Seq<char>>, i: int) -> Seq<char>
    decreases names.len() - i,
{
    if i < 0 || i >= names.len() {
        seq![]
    } else if i + 1 == names.len() {
        "'"@ + names[i] + "'"@
    } else {
        "'"@ + names[i] + "', "@ + quoted(names, i + 1)
    }
}

/// The advice that follows from the names that may have been meant.
pub open spec fn advice(names: Seq<Seq<char>>) -> ErrorView {
    if names.len() == 1 {
        ErrorView::SemHelp { msg: "did you mean '"@ + names[0] + "'?"@ }
    } else if names.len() != 0 {
        ErrorView::SemHelp { msg: "did you mean one of "@ + quoted(names, 0) + "?"@ }
    } else {
        ErrorView::empty()
    }
}

/// Names in quotes with commas between them, from the `i`-th on.
fn quoted_text(names: &Vec<String>, i: usize) -> (r: String)
    requires
        i <= names@.len(),
    ensures
        r@ == quoted(texts(names@), i as int),
    decreases names@.len() - i,
{
    if i >= names.len() {
        let r: String = String::new();
        assert(r@ =~= Seq::<char>::empty());
        r
    } else if i + 1 == names.len() {
        join2(&join2("'", &names[i]), "'")
    } else {
        join2(&join2(&join2("'", &names[i]), "', "), &quoted_text(names, i + 1))
    }
}

/// The advice that follows from the names that may have been meant.
fn advice_on(names: &Vec<String>) -> (r: CompileError)
    ensures
        r@ == advice(texts(names@)),
{
    assert(texts(names@).len() == names@.len());
    if names.len() == 1 {
        CompileError::SemHelp { msg: join2(&join2("did you mean '", &names[0]), "'?") }
    } else if names.len() != 0 {
        CompileError::SemHelp {
            msg: join2(&join2("did you mean one of ", &quoted_text(names, 0)), "?"),
        }
    } else {
        CompileError::new()
    }
}

/// The names of a table, after other names.
pub open spec fn names_after<V>(searched: Seq<Seq<char>>, table: TableView<V>) -> Seq<Seq<char>> {
    searched + table.names
}

/// The names of a table, after other names.
pub(crate) fn with_names<V: View>(searched: Vec<String>, table: &Table<V>) -> (r: Vec<String>)
    ensures
        texts(r@) == names_after(texts(searched@), table@),
{
    let ghost before = texts(searched@);
    let ghost names = table@.names;
    let mut all: Vec<String> = searched;
    let mut i: usize = 0;
    assert(texts(all@) =~= before + names.take(0));
    let count: usize = table.name_count();
    while i < count
        invariant
            names == table@.names,
            names.len() == count,
            i <= count,
            texts(all@) == before + names.take(i as int),
        decreases count - i,
    {
        if let Some(name) = table.name_at(i) {
            let ghost held = all@;
            all.push(name.clone());
            proof {
                lemma_texts_push(held, all@[held.len() as int]);
                assert(names.take(i as int).push(names[i as int]) =~= names.take(i + 1));
                assert(texts(all@) =~= before + names.take(i + 1));
            }
        }
        i = i + 1;
    }
    assert(names.take(i as int) =~= names);
    all
}

/// Several names.
pub struct Names {
    pub list: Vec<String>,
}

impl View for Names {
    type V = Seq<Seq<char>>;

    open spec fn view(&self) -> Seq<Seq<char>> {
        texts(self.list@)
    }
}

/// Several names.
pub(crate) fn names_list(list: Vec<String>) -> (r: Names)
    ensures
        r@ == texts(list@),
{
    Names { list }
}

impl AnalyzerView {
    /// The advice which of the searched names may have been meant.
    #[verifier::opaque]
    pub open spec fn make_did_you_mean_help(
        self,
        name: Seq<char>,
        searched: Seq<Seq<char>>,
    ) -> ErrorView
    {
        advice(suggestions(name, searched))
    }

    /// The child of a scope with the given name, if there is one.
    #[verifier::opaque]
    pub open spec fn find_child(
        self,
        scope_id: ScopeIdView,
        name: Seq<char>,
    ) -> Result<Option<ScopeIdView>, StopView>
    {
        let s = self;
        match s.get_scope(scope_id) { Err(e) => Err(e), Ok(scope) => {
        match scope.children.find(name) {
            Some(child) => {
                Ok(Some(child))
            },
            None => {
                Ok(None)
            },
        }
        }}
    }

    /// What the name of a visited scope stands for in an expression.
    #[verifier::opaque]
    pub open spec fn member_context(
        self,
        child_id: ScopeIdView,
        line: Span,
    ) -> Result<ContextView, StopView>
    {
        let s = self;
        match s.get_scope(child_id) { Err(e) => Err(e), Ok(scope) => {
        match scope.payload {
            PayloadView::Compound(_) => {
                Ok(
                    ContextView::make(
                        true,
                        TypeView::Typedef,
                        ValueView::Imm(ImmView::Type(TypeView::Basic(child_id))),
                    ),
                )
            },
            PayloadView::Typedef(taipe) => {
                Ok(ContextView::make(true, TypeView::Typedef, ValueView::Imm(ImmView::Type(taipe))))
            },
            PayloadView::Block(_) => {
                Err(StopView::Unsupported("accessing block members not allowed"@))
            },
            PayloadView::LayoutResolutionInProgress => {
                Err(StopView::Unsupported("probably some analyzer bug"@))
            },
            _ => {
                match scope.kind {
                    ScopeKind::Module => {
                        Ok(
                            ContextView::make(
                                true,
                                TypeView::Module,
                                ValueView::from_module(child_id),
                            ),
                        )
                    },
                    _ => {
                        match scope.get_type() { None => {
                            Err(StopView::Unsupported("probably some analyzer bug"@))
                        }, Some(taipe) => {
                        match s.get_enclosing_function(child_id) {
                            None => {
                                Ok(
                                    ContextView::make(
                                        true,
                                        taipe,
                                        ValueView::GetGlobal {
                                            line_info: line,
                                            scope_id: child_id,
                                        },
                                    ),
                                )
                            },
                            Some(_) => {
                                Ok(
                                    ContextView::make(
                                        true,
                                        taipe,
                                        ValueView::GetLocal { line_info: line, scope_id: child_id },
                                    ),
                                )
                            },
                        }
                        }}
                    },
                }
            },
        }
        }}
    }

    /// What a name stands for among the members of a scope, if it is one of them. A declaration
    /// that was not visited yet is visited now, in that scope. Where this fails, the scope stays
    /// one of the current ones.
    #[verifier::opaque]
    pub open spec fn resolve_member(
        self,
        scope_id: ScopeIdView,
        name: Seq<char>,
        line: Span,
        fuel: int,
    ) -> (AnalyzerView, Result<Option<ContextView>, StopView>)
        decreases fuel, 1nat, 0int,
    {
        let s = self;
        if fuel <= 0 {
            (s, Err(StopView::Unsupported("nested too deeply"@)))
        } else {
        match s.find_child(scope_id, name) { Err(e) => (s, Err(e)), Ok(found) => {
        match found {
            None => {
                (s, Ok(None))
            },
            Some(child) => {
                match s.get_scope_eval_state(child) { Err(e) => (s, Err(e)), Ok(state) => {
                match state {
                    ScopeEvalStateView::NotVisited(node) => {
                        match node {
                            ScopeNodeView::Decl(decl) => {
                                match s.push_current_scope(scope_id) {
                                    (s, Err(e)) => (s, Err(e)), (s, Ok(_)) => {
                                match s.visit_decl(decl, fuel - 1) {
                                    (s, Err(e)) => (s, Err(e)), (s, Ok(child)) => {
                                let s = s.pop_current_scope();
                                match s.member_context(child, line) {
                                    Err(e) => (s, Err(e)), Ok(ctx) => {
                                (s, Ok(Some(ctx)))
                                }}}}}}
                            },
                            ScopeNodeView::Object(_) => {
                                (s, Err(StopView::Unsupported("probably some analyzer bug"@)))
                            },
                        }
                    },
                    ScopeEvalStateView::VisitInProgress => {
                        match s.get_src_path_of_scope(child) { Err(e) => (s, Err(e)), Ok(path) => {
                        match s.scope_line(child) { Err(e) => (s, Err(e)), Ok(child_line) => {
                        (
                            s,
                            Err(
                                StopView::Errors(
                                    ErrorView::SemCyclic { file_path: path, line_info: child_line },
                                ),
                            ),
                        )
                        }}}}
                    },
                    ScopeEvalStateView::Visited => {
                        match s.member_context(child, line) { Err(e) => (s, Err(e)), Ok(ctx) => {
                        (s, Ok(Some(ctx)))
                        }}
                    },
                }
                }}
            },
        }
        }}}
    }

    /// The names of the members of a scope, after other names.
    #[verifier::opaque]
    pub open spec fn more_names(
        self,
        scope_id: ScopeIdView,
        searched: Seq<Seq<char>>,
    ) -> Result<Seq<Seq<char>>, StopView>
    {
        let s = self;
        match s.get_scope(scope_id) { Err(e) => Err(e), Ok(scope) => {
        Ok((names_after(searched, scope.children)))
        }}
    }

    /// What a name stands for among the members of a scope.
    #[verifier::opaque]
    pub open spec fn get_member(
        self,
        scope_id: ScopeIdView,
        name: TokenView,
        fuel: int,
    ) -> (AnalyzerView, Result<ContextView, StopView>)
        decreases fuel, 2nat, 0int,
    {
        let s = self;
        if fuel <= 0 {
            (s, Err(StopView::Unsupported("nested too deeply"@)))
        } else {
        match s.resolve_member(scope_id, name.text, name.line_info, fuel - 1) {
            (s, Err(e)) => (s, Err(e)), (s, Ok(found)) => {
        match found {
            Some(ctx) => {
                (s, Ok(ctx))
            },
            None => {
                match s.scope_path(scope_id) { Err(e) => (s, Err(e)), Ok(path) => {
                match s.more_names(scope_id, seq![]) { Err(e) => (s, Err(e)), Ok(names) => {
                (
                    s,
                    Err(
                        StopView::Errors(
                            ErrorView::pair(
                                s.make_err(
                                    ("'"@ + path + "' has no member named '"@ + name.text + "'"@),
                                    name.line_info,
                                ),
                                s.make_did_you_mean_help(name.text, names),
                            ),
                        ),
                    ),
                )
                }}}}
            },
        }
        }}}
    }

    /// What a name stands for in the current scope.
    #[verifier::opaque]
    pub open spec fn get_name(
        self,
        name: TokenView,
        fuel: int,
    ) -> (AnalyzerView, Result<ContextView, StopView>)
        decreases fuel, 2nat, 0int,
    {
        let s = self;
        if fuel <= 0 {
            (s, Err(StopView::Unsupported("nested too deeply"@)))
        } else {
        let id = s.current_id();
        s.resolve_name(name, id, None, seq![], fuel - 1)
        }
    }

    /// What a name stands for in a scope or in those around it.
    #[verifier::opaque]
    pub open spec fn resolve_name(
        self,
        name: TokenView,
        scope_id: ScopeIdView,
        inner_fn: Option<ScopeIdView>,
        searched: Seq<Seq<char>>,
        fuel: int,
    ) -> (AnalyzerView, Result<ContextView, StopView>)
        decreases fuel, 2nat, 0int,
    {
        let s = self;
        if fuel <= 0 {
            (s, Err(StopView::Unsupported("nested too deeply"@)))
        } else {
        let (s, result) = s.resolve_member(scope_id, name.text, name.line_info, fuel - 1);
        match result {
            Ok(Some(ctx)) => {
                match inner_fn {
                    None => {
                        (s, Ok(ctx))
                    },
                    Some(inner) => {
                        (s, s.check_outer(ctx, inner, name.line_info))
                    },
                }
            },
            Ok(None) => {
                match s.more_names(scope_id, searched) { Err(e) => (s, Err(e)), Ok(names) => {
                s.search_outer(name, scope_id, inner_fn, names, fuel - 1)
                }}
            },
            Err(StopView::Errors(ErrorView::SemCyclic { file_path: _, line_info: _ })) => {
                s.search_outer(name, scope_id, inner_fn, searched, fuel - 1)
            },
            Err(e) => {
                (s, Err(e))
            },
        }
        }
    }

    /// What a name stands for in the scopes around a scope, or in the language itself.
    #[verifier::opaque]
    pub open spec fn search_outer(
        self,
        name: TokenView,
        scope_id: ScopeIdView,
        inner_fn: Option<ScopeIdView>,
        searched: Seq<Seq<char>>,
        fuel: int,
    ) -> (AnalyzerView, Result<ContextView, StopView>)
        decreases fuel, 1nat, 0int,
    {
        let s = self;
        if fuel <= 0 {
            (s, Err(StopView::Unsupported("nested too deeply"@)))
        } else {
        match s.get_scope(scope_id) { Err(e) => (s, Err(e)), Ok(scope) => {
        match scope.parent {
            None => {
                (s, s.builtin_name(name, searched))
            },
            Some(parent) => {
                let outer = parent;
                match scope.kind {
                    ScopeKind::Function => {
                        s.resolve_name(name, outer, Some(scope_id), searched, fuel - 1)
                    },
                    _ => {
                        s.resolve_name(name, outer, inner_fn, searched, fuel - 1)
                    },
                }
            },
        }
        }}}
    }

    /// Checks that what was found outside of a function is no local variable of another one.
    #[verifier::opaque]
    pub open spec fn check_outer(
        self,
        ctx: ContextView,
        inner_fn: ScopeIdView,
        line: Span,
    ) -> Result<ContextView, StopView>
    {
        let s = self;
        if ctx.taipe.is_typedef() {
            Ok(ctx)
        } else {
        match ctx.value {
            ValueView::Imm(ImmView::Module(scope_id)) => {
                s.check_variable(scope_id, ctx, inner_fn, line)
            },
            ValueView::GetGlobal { line_info: _, scope_id } => {
                s.check_variable(scope_id, ctx, inner_fn, line)
            },
            ValueView::GetLocal { line_info: _, scope_id } => {
                s.check_variable(scope_id, ctx, inner_fn, line)
            },
            _ => {
                Err(StopView::Unsupported("probably some bug in resolve_member"@))
            },
        }
        }
    }

    /// Checks that a scope is no local variable of an outer function.
    #[verifier::opaque]
    pub open spec fn check_variable(
        self,
        scope_id: ScopeIdView,
        ctx: ContextView,
        inner_fn: ScopeIdView,
        line: Span,
    ) -> Result<ContextView, StopView>
    {
        let s = self;
        match s.get_scope(scope_id) { Err(e) => Err(e), Ok(scope) => {
        match scope.kind {
            ScopeKind::Variable => {
                match s.get_enclosing_function(scope_id) {
                    None => {
                        Ok(ctx)
                    },
                    Some(outer_fn) => {
                        match s.scope_line(inner_fn) { Err(e) => Err(e), Ok(inner_line) => {
                        match s.scope_line(outer_fn) { Err(e) => Err(e), Ok(outer_line) => {
                        Err(
                            StopView::Errors(
                                ErrorView::quadruple(
                                    s.make_err(
                                        "cannot use local variable of outer function from inner function context"@,
                                        line,
                                    ),
                                    s.make_note("variable is declared here"@, scope.line_info),
                                    s.make_note("inner function is declared here"@, inner_line),
                                    s.make_note("outer function is declared here"@, outer_line),
                                ),
                            ),
                        )
                        }}}}
                    },
                }
            },
            _ => {
                Ok(ctx)
            },
        }
        }}
    }

    /// The type that a name of the language stands for.
    #[verifier::opaque]
    pub open spec fn builtin_name(
        self,
        name: TokenView,
        searched: Seq<Seq<char>>,
    ) -> Result<ContextView, StopView>
    {
        let s = self;
        match s.builtin_type(name.text) {
            Some(taipe) => {
                Ok(ContextView::from_type(taipe))
            },
            None => {
                Err(
                    StopView::Errors(
                        ErrorView::pair(
                            s.make_err("undefined reference"@, name.line_info),
                            s.make_did_you_mean_help(name.text, searched),
                        ),
                    ),
                )
            },
        }
    }

    /// The type that a name of the language stands for, if there is one.
    #[verifier::opaque]
    pub open spec fn builtin_type(
        self,
        name: Seq<char>,
    ) -> Option<TypeView>
    {
        let s = self;
        if (name == "__bool"@) {
            Some(TypeView::Bool)
        } else {
        if (name == "__char"@) {
            Some(TypeView::Char)
        } else {
        if (name == "__i8"@) {
            Some(TypeView::Int8)
        } else {
        if (name == "__i16"@) {
            Some(TypeView::Int16)
        } else {
        if (name == "__i32"@) {
            Some(TypeView::Int32)
        } else {
        if (name == "__i64"@) {
            Some(TypeView::Int64)
        } else {
        if (name == "__i128"@) {
            Some(TypeView::Int128)
        } else {
        if (name == "__int"@) {
            Some(s.int_type())
        } else {
        if (name == "__isize"@) {
            Some(s.isize_type())
        } else {
        if (name == "__u8"@) {
            Some(TypeView::Uint8)
        } else {
        if (name == "__u16"@) {
            Some(TypeView::Uint16)
        } else {
        if (name == "__u32"@) {
            Some(TypeView::Uint32)
        } else {
        if (name == "__u64"@) {
            Some(TypeView::Uint64)
        } else {
        if (name == "__u128"@) {
            Some(TypeView::Uint128)
        } else {
        if (name == "__uint"@) {
            Some(s.uint_type())
        } else {
        if (name == "__usize"@) {
            Some(s.usize_type())
        } else {
        if (name == "__f32"@) {
            Some(TypeView::Float32)
        } else {
        if (name == "__f64"@) {
            Some(TypeView::Float64)
        } else {
        None
        }}}}}}}}}}}}}}}}}}
    }
}

impl<'a> Analyzer<'a> {
    /// The advice which of the searched names may have been meant.
    pub(crate) fn make_did_you_mean_help(
        &self,
        name: &str,
        searched: &Vec<String>,
    ) -> (r: CompileError)
        requires
            self@.wf(),
        ensures
            r@ == self@.make_did_you_mean_help(name@, texts(searched@)),
    {
        broadcast use group_analyzer;

        proof {
            reveal(AnalyzerView::make_did_you_mean_help);
        }
        advice_on(&suggest(name, searched))
    }

    /// The child of a scope with the given name, if there is one.
    pub(crate) fn find_child(
        &self,
        scope_id: &ScopeId,
        name: &str,
    ) -> (r: Result<Option<ScopeId>, Stop>)
        requires
            self@.wf(),
        ensures
            option_outcome(r) == self@.find_child(scope_id@, name@),
            r matches Ok(Some(id)) ==> self@.is_child(scope_id@, id@),
    {
        broadcast use group_analyzer;

        proof {
            reveal(AnalyzerView::find_child);
        }
        let scope = match self.get_scope(scope_id) {
            Ok(v) => v,
            Err(e) => {
                return Err(e);
            },
        };
        proof {
            reveal(AnalyzerView::wf);
                    let table = self@.scopes[scope_id@.index].children;
                    let k = table.names.index_of(name@);
                    if table.has(name@) && k < table.values.len() {
                        assert(table.names[k] == name@);
                        assert(self@.is_child_of(scope_id@.index, table.values[k]));
                    }
        }
        match scope.children.find(name) {
            Some(child) => {
                Ok(Some(child.copy()))
            },
            None => {
                Ok(None)
            },
        }
    }

    /// What the name of a visited scope stands for in an expression.
    pub(crate) fn member_context(
        &self,
        child_id: &ScopeId,
        line: LineInfo,
    ) -> (r: Result<Context, Stop>)
        requires
            self@.wf(),
        ensures
            outcome(r) == self@.member_context(child_id@, line@),
    {
        broadcast use group_analyzer;

        proof {
            reveal(AnalyzerView::member_context);
            reveal(Context::model);
            reveal(Value::model);
        }
        let scope = match self.get_scope(child_id) {
            Ok(v) => v,
            Err(e) => {
                return Err(e);
            },
        };
        match &scope.payload {
            Payload::Compound(_) => {
                Ok(
                    Context::make(
                        true,
                        Type::Typedef,
                        Value::Imm(Imm::Type(Type::Basic(child_id.copy()))),
                    ),
                )
            },
            Payload::Typedef(taipe) => {
                Ok(Context::make(true, Type::Typedef, Value::Imm(Imm::Type(taipe.copy()))))
            },
            Payload::Block(_) => {
                Err(Stop::Unsupported("accessing block members not allowed".to_owned()))
            },
            Payload::LayoutResolutionInProgress => {
                Err(Stop::Unsupported("probably some analyzer bug".to_owned()))
            },
            _ => {
                match scope.kind {
                    ScopeKind::Module => {
                        Ok(Context::make(true, Type::Module, Value::from_module(child_id.copy())))
                    },
                    _ => {
                        let Some(taipe) = scope.get_type() else {
                            return Err(Stop::Unsupported("probably some analyzer bug".to_owned()));
                        };
                        match self.get_enclosing_function(child_id) {
                            None => {
                                Ok(
                                    Context::make(
                                        true,
                                        taipe.copy(),
                                        Value::GetGlobal {
                                            line_info: line,
                                            scope_id: child_id.copy(),
                                        },
                                    ),
                                )
                            },
                            Some(_) => {
                                Ok(
                                    Context::make(
                                        true,
                                        taipe.copy(),
                                        Value::GetLocal {
                                            line_info: line,
                                            scope_id: child_id.copy(),
                                        },
                                    ),
                                )
                            },
                        }
                    },
                }
            },
        }
    }

    /// What a name stands for among the members of a scope, if it is one of them. A declaration
    /// that was not visited yet is visited now, in that scope. Where this fails, the scope stays
    /// one of the current ones.
    pub(crate) fn resolve_member(
        &mut self,
        scope_id: &ScopeId,
        name: &str,
        line: LineInfo,
        fuel: u64,
    ) -> (r: Result<Option<Context>, Stop>)
        requires
            old(self)@.wf(),
        ensures
            (final(self)@, option_outcome(r)) == old(self)@.resolve_member(
                scope_id@,
                name@,
                line@,
                fuel as int,
            ),
            final(self)@.follows(old(self)@),
            old(self)@.stack.is_prefix_of(final(self)@.stack),
        decreases fuel, 1nat,
    {
        broadcast use group_analyzer;

        proof {
            lemma_begin(self@);
            reveal(AnalyzerView::resolve_member);
            reveal(AnalyzerView::visit_decl);
        }
        if fuel == 0 {
            return Err(Stop::Unsupported("nested too deeply".to_owned()));
        }
        let found = match self.find_child(scope_id, name) {
            Ok(v) => v,
            Err(e) => {
                return Err(e);
            },
        };
        match found {
            None => {
                Ok(None)
            },
            Some(child) => {
                let state = match self.get_scope_eval_state(&child) {
                    Ok(v) => v,
                    Err(e) => {
                        return Err(e);
                    },
                };
                match state {
                    ScopeEvalState::NotVisited(node) => {
                        match node {
                            ScopeNode::Decl(decl) => {
                                match self.push_current_scope(scope_id) {
                                    Ok(_) => {},
                                    Err(e) => {
                                        return Err(e);
                                    },
                                }
                                let child = match self.visit_decl(decl, fuel - 1) {
                                    Ok(v) => v,
                                    Err(e) => {
                                        return Err(e);
                                    },
                                };
                                self.pop_current_scope();
                                let ctx = match self.member_context(&child, line) {
                                    Ok(v) => v,
                                    Err(e) => {
                                        return Err(e);
                                    },
                                };
                                Ok(Some(ctx))
                            },
                            ScopeNode::Object(_) => {
                                Err(Stop::Unsupported("probably some analyzer bug".to_owned()))
                            },
                        }
                    },
                    ScopeEvalState::VisitInProgress => {
                        let path = match self.get_src_path_of_scope(&child) {
                            Ok(v) => v,
                            Err(e) => {
                                return Err(e);
                            },
                        };
                        let child_line = match self.scope_line(&child) {
                            Ok(v) => v,
                            Err(e) => {
                                return Err(e);
                            },
                        };
                        Err(
                            Stop::Errors(
                                CompileError::SemCyclic { file_path: path, line_info: child_line },
                            ),
                        )
                    },
                    ScopeEvalState::Visited => {
                        let ctx = match self.member_context(&child, line) {
                            Ok(v) => v,
                            Err(e) => {
                                return Err(e);
                            },
                        };
                        Ok(Some(ctx))
                    },
                }
            },
        }
    }

    /// The names of the members of a scope, after other names.
    pub(crate) fn more_names(
        &self,
        scope_id: &ScopeId,
        searched: Vec<String>,
    ) -> (r: Result<Names, Stop>)
        requires
            self@.wf(),
        ensures
            outcome(r) == self@.more_names(scope_id@, texts(searched@)),
    {
        broadcast use group_analyzer;

        proof {
            reveal(AnalyzerView::more_names);
        }
        let scope = match self.get_scope(scope_id) {
            Ok(v) => v,
            Err(e) => {
                return Err(e);
            },
        };
        Ok(names_list(with_names(searched, &scope.children)))
    }

    /// What a name stands for among the members of a scope.
    pub(crate) fn get_member(
        &mut self,
        scope_id: &ScopeId,
        name: &Token,
        fuel: u64,
    ) -> (r: Result<Context, Stop>)
        requires
            old(self)@.wf(),
        ensures
            (final(self)@, outcome(r)) == old(self)@.get_member(scope_id@, name@, fuel as int),
            final(self)@.follows(old(self)@),
        decreases fuel, 2nat,
    {
        broadcast use group_analyzer;

        proof {
            lemma_begin(self@);
            reveal(AnalyzerView::get_member);
            reveal(AnalyzerView::resolve_member);
        }
        if fuel == 0 {
            return Err(Stop::Unsupported("nested too deeply".to_owned()));
        }
        let found = match self.resolve_member(scope_id, &name.text, name.line_info, fuel - 1) {
            Ok(v) => v,
            Err(e) => {
                return Err(e);
            },
        };
        match found {
            Some(ctx) => {
                Ok(ctx)
            },
            None => {
                let path = match self.scope_path(scope_id) {
                    Ok(v) => v,
                    Err(e) => {
                        return Err(e);
                    },
                };
                let names = match self.more_names(scope_id, Vec::new()) {
                    Ok(v) => v,
                    Err(e) => {
                        return Err(e);
                    },
                };
                Err(
                    Stop::Errors(
                        CompileError::pair(
                            self.make_err(
                                &join2(
                                    &join2(
                                        &join2(&join2("'", &path), "' has no member named '"),
                                        &name.text,
                                    ),
                                    "'",
                                ),
                                name.line_info,
                            ),
                            self.make_did_you_mean_help(&name.text, &names.list),
                        ),
                    ),
                )
            },
        }
    }

    /// What a name stands for in the current scope.
    pub(crate) fn get_name(
        &mut self,
        name: &Token,
        fuel: u64,
    ) -> (r: Result<Context, Stop>)
        requires
            old(self)@.wf(),
        ensures
            (final(self)@, outcome(r)) == old(self)@.get_name(name@, fuel as int),
            final(self)@.follows(old(self)@),
        decreases fuel, 2nat,
    {
        broadcast use group_analyzer;

        proof {
            lemma_begin(self@);
            reveal(AnalyzerView::get_name);
            reveal(AnalyzerView::resolve_name);
        }
        if fuel == 0 {
            return Err(Stop::Unsupported("nested too deeply".to_owned()));
        }
        let id = self.current_id();
        self.resolve_name(name, id, None, Vec::new(), fuel - 1)
    }

    /// What a name stands for in a scope or in those around it.
    pub(crate) fn resolve_name(
        &mut self,
        name: &Token,
        scope_id: ScopeId,
        inner_fn: Option<ScopeId>,
        searched: Vec<String>,
        fuel: u64,
    ) -> (r: Result<Context, Stop>)
        requires
            old(self)@.wf(),
        ensures
            (final(self)@, outcome(r)) == old(self)@.resolve_name(
                name@,
                scope_id@,
                option_view(inner_fn),
                texts(searched@),
                fuel as int,
            ),
            final(self)@.follows(old(self)@),
        decreases fuel, 2nat,
    {
        broadcast use group_analyzer;

        proof {
            lemma_begin(self@);
            reveal(AnalyzerView::resolve_name);
            reveal(AnalyzerView::resolve_member);
            reveal(AnalyzerView::search_outer);
        }
        if fuel == 0 {
            return Err(Stop::Unsupported("nested too deeply".to_owned()));
        }
        match self.resolve_member(&scope_id, &name.text, name.line_info, fuel - 1) {
            Ok(Some(ctx)) => {
                match inner_fn {
                    None => {
                        Ok(ctx)
                    },
                    Some(inner) => {
                        self.check_outer(ctx, &inner, name.line_info)
                    },
                }
            },
            Ok(None) => {
                let names = match self.more_names(&scope_id, searched) {
                    Ok(v) => v,
                    Err(e) => {
                        return Err(e);
                    },
                };
                self.search_outer(name, scope_id, inner_fn, names.list, fuel - 1)
            },
            Err(Stop::Errors(CompileError::SemCyclic { file_path: _, line_info: _ })) => {
                self.search_outer(name, scope_id, inner_fn, searched, fuel - 1)
            },
            Err(e) => {
                Err(e)
            },
        }
    }

    /// What a name stands for in the scopes around a scope, or in the language itself.
    pub(crate) fn search_outer(
        &mut self,
        name: &Token,
        scope_id: ScopeId,
        inner_fn: Option<ScopeId>,
        searched: Vec<String>,
        fuel: u64,
    ) -> (r: Result<Context, Stop>)
        requires
            old(self)@.wf(),
        ensures
            (final(self)@, outcome(r)) == old(self)@.search_outer(
                name@,
                scope_id@,
                option_view(inner_fn),
                texts(searched@),
                fuel as int,
            ),
            final(self)@.follows(old(self)@),
        decreases fuel, 1nat,
    {
        broadcast use group_analyzer;

        proof {
            lemma_begin(self@);
            reveal(AnalyzerView::search_outer);
            reveal(AnalyzerView::resolve_name);
        }
        if fuel == 0 {
            return Err(Stop::Unsupported("nested too deeply".to_owned()));
        }
        let scope = match self.get_scope(&scope_id) {
            Ok(v) => v,
            Err(e) => {
                return Err(e);
            },
        };
        match &scope.parent {
            None => {
                self.builtin_name(name, &searched)
            },
            Some(parent) => {
                let outer = parent.copy();
                match scope.kind {
                    ScopeKind::Function => {
                        self.resolve_name(name, outer, Some(scope_id), searched, fuel - 1)
                    },
                    _ => {
                        self.resolve_name(name, outer, inner_fn, searched, fuel - 1)
                    },
                }
            },
        }
    }

    /// Checks that what was found outside of a function is no local variable of another one.
    pub(crate) fn check_outer(
        &self,
        ctx: Context,
        inner_fn: &ScopeId,
        line: LineInfo,
    ) -> (r: Result<Context, Stop>)
        requires
            self@.wf(),
        ensures
            outcome(r) == self@.check_outer(ctx@, inner_fn@, line@),
    {
        broadcast use group_analyzer;

        proof {
            reveal(AnalyzerView::check_outer);
            reveal(Context::model);
            reveal(Value::model);
        }
        if ctx.taipe.is_typedef() {
            return Ok(ctx);
        }
        match &ctx.value {
            Value::Imm(Imm::Module(scope_id)) => {
                self.check_variable(scope_id, ctx.copy(), inner_fn, line)
            },
            Value::GetGlobal { line_info: _, scope_id } => {
                self.check_variable(scope_id, ctx.copy(), inner_fn, line)
            },
            Value::GetLocal { line_info: _, scope_id } => {
                self.check_variable(scope_id, ctx.copy(), inner_fn, line)
            },
            _ => {
                Err(Stop::Unsupported("probably some bug in resolve_member".to_owned()))
            },
        }
    }

    /// Checks that a scope is no local variable of an outer function.
    pub(crate) fn check_variable(
        &self,
        scope_id: &ScopeId,
        ctx: Context,
        inner_fn: &ScopeId,
        line: LineInfo,
    ) -> (r: Result<Context, Stop>)
        requires
            self@.wf(),
        ensures
            outcome(r) == self@.check_variable(scope_id@, ctx@, inner_fn@, line@),
    {
        broadcast use group_analyzer;

        proof {
            reveal(AnalyzerView::check_variable);
        }
        let scope = match self.get_scope(scope_id) {
            Ok(v) => v,
            Err(e) => {
                return Err(e);
            },
        };
        match scope.kind {
            ScopeKind::Variable => {
                match self.get_enclosing_function(scope_id) {
                    None => {
                        Ok(ctx)
                    },
                    Some(outer_fn) => {
                        let inner_line = match self.scope_line(inner_fn) {
                            Ok(v) => v,
                            Err(e) => {
                                return Err(e);
                            },
                        };
                        let outer_line = match self.scope_line(&outer_fn) {
                            Ok(v) => v,
                            Err(e) => {
                                return Err(e);
                            },
                        };
                        Err(
                            Stop::Errors(
                                CompileError::quadruple(
                                    self.make_err(
                                        "cannot use local variable of outer function from inner function context",
                                        line,
                                    ),
                                    self.make_note("variable is declared here", scope.line_info),
                                    self.make_note("inner function is declared here", inner_line),
                                    self.make_note("outer function is declared here", outer_line),
                                ),
                            ),
                        )
                    },
                }
            },
            _ => {
                Ok(ctx)
            },
        }
    }

    /// The type that a name of the language stands for.
    pub(crate) fn builtin_name(
        &self,
        name: &Token,
        searched: &Vec<String>,
    ) -> (r: Result<Context, Stop>)
        requires
            self@.wf(),
        ensures
            outcome(r) == self@.builtin_name(name@, texts(searched@)),
    {
        broadcast use group_analyzer;

        proof {
            reveal(AnalyzerView::builtin_name);
        }
        match self.builtin_type(&name.text) {
            Some(taipe) => {
                Ok(Context::from_type(taipe))
            },
            None => {
                Err(
                    Stop::Errors(
                        CompileError::pair(
                            self.make_err("undefined reference", name.line_info),
                            self.make_did_you_mean_help(&name.text, searched),
                        ),
                    ),
                )
            },
        }
    }

    /// The type that a name of the language stands for, if there is one.
    pub(crate) fn builtin_type(
        &self,
        name: &str,
    ) -> (r: Option<Type>)
        requires
            self@.wf(),
        ensures
            option_view(r) == self@.builtin_type(name@),
    {
        broadcast use group_analyzer;

        proof {
            reveal(AnalyzerView::builtin_type);
        }
        if same_text(name, "__bool") {
            return Some(Type::Bool);
        }
        if same_text(name, "__char") {
            return Some(Type::Char);
        }
        if same_text(name, "__i8") {
            return Some(Type::Int8);
        }
        if same_text(name, "__i16") {
            return Some(Type::Int16);
        }
        if same_text(name, "__i32") {
            return Some(Type::Int32);
        }
        if same_text(name, "__i64") {
            return Some(Type::Int64);
        }
        if same_text(name, "__i128") {
            return Some(Type::Int128);
        }
        if same_text(name, "__int") {
            return Some(self.int_type());
        }
        if same_text(name, "__isize") {
            return Some(self.isize_type());
        }
        if same_text(name, "__u8") {
            return Some(Type::Uint8);
        }
        if same_text(name, "__u16") {
            return Some(Type::Uint16);
        }
        if same_text(name, "__u32") {
            return Some(Type::Uint32);
        }
        if same_text(name, "__u64") {
            return Some(Type::Uint64);
        }
        if same_text(name, "__u128") {
            return Some(Type::Uint128);
        }
        if same_text(name, "__uint") {
            return Some(self.uint_type());
        }
        if same_text(name, "__usize") {
            return Some(self.usize_type());
        }
        if same_text(name, "__f32") {
            return Some(Type::Float32);
        }
        if same_text(name, "__f64") {
            return Some(Type::Float64);
        }
        None
    }
}

} // verus!
