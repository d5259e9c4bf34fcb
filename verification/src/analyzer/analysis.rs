use vstd::prelude::*;

use crate::ast;
use crate::analyzer::{
    group_analyzer, lemma_begin, Analyzer, AnalyzerView, ScopeEvalState, ScopeEvalStateView,
    ScopeNode, ScopeNodeView,
};
use crate::ast::{decl_models, Decl, DeclView, Object, ObjectView};
use crate::common::{
    line_of, outcome, CompileError, ErrorView, HasLineInfo, Settings, Stop, StopView,
};
use crate::context::{Type, TypeView};
use crate::scope::{
    path_with, Payload, PayloadView, Scope, ScopeId, ScopeIdView, ScopeKind, ScopeView,
    SymbolPath,
};
use crate::table::{views, with_entry, Table, TableView};

verus! {

/// The identities of several scopes.
pub struct ScopeIds {
    pub list: Vec<ScopeId>,
}

impl View for ScopeIds {
    type V = Seq<ScopeIdView>;

    open spec fn view(&self) -> Seq<ScopeIdView> {
        views(self.list@)
    }
}

/// One scope.
pub open spec fn only_id(id: ScopeIdView) -> Seq<ScopeIdView> {
    seq![id]
}

/// Some scopes and then others.
pub open spec fn ids_joined(
    ids: Seq<ScopeIdView>,
    others: Seq<ScopeIdView>,
) -> Seq<ScopeIdView> {
    ids + others
}

/// No scope.
fn no_ids() -> (r: ScopeIds)
    ensures
        r@ == Seq::<ScopeIdView>::empty(),
{
    let r: ScopeIds = ScopeIds { list: Vec::new() };
    assert(r@ =~= Seq::<ScopeIdView>::empty());
    r
}

/// One scope.
fn one_id(id: ScopeId) -> (r: ScopeIds)
    ensures
        r@ == only_id(id@),
{
    let mut list: Vec<ScopeId> = Vec::new();
    let ghost made = id@;
    list.push(id);
    assert(views(list@) =~= only_id(made));
    ScopeIds { list }
}

/// Some scopes and then others.
fn join_ids(ids: ScopeIds, others: ScopeIds) -> (r: ScopeIds)
    ensures
        r@ == ids_joined(ids@, others@),
{
    let mut list: Vec<ScopeId> = ids.list;
    let mut more: Vec<ScopeId> = others.list;
    proof {
        assert(views(list@ + more@) =~= views(list@) + views(more@));
    }
    list.append(&mut more);
    ScopeIds { list }
}

/// All scopes of a program.
pub struct ScopePool {
    pub pool: Vec<Scope>,
}

impl View for ScopePool {
    type V = Seq<ScopeView>;

    open spec fn view(&self) -> Seq<ScopeView> {
        views(self.pool@)
    }
}

/// Whether one of the scopes has the given identity.
pub open spec fn pool_has(pool: Seq<ScopeView>, scope_id: ScopeIdView) -> bool {
    0 <= scope_id.index < pool.len() && pool[scope_id.index].id == scope_id
}

impl ScopePool {
    /// The scopes as a pool.
    pub fn new(pool: Vec<Scope>) -> (r: Self)
        ensures
            r@ == views(pool@),
    {
        ScopePool { pool }
    }

    /// The scope with the given identity, which is one of the pool.
    pub fn get_scope(&self, scope_id: &ScopeId) -> (r: &Scope)
        requires
            pool_has(self@, scope_id@),
        ensures
            r@ == self@[scope_id@.index],
            r@.id == scope_id@,
    {
        &self.pool[scope_id.index]
    }
}

/// The result of a semantic analysis without errors.
pub struct SemResult {
    pub scope_pool: ScopePool,
    pub roots: Table<ScopeId>,
    pub warnings: CompileError,
}

/// The model of the result of a semantic analysis.
pub struct SemResultView {
    pub scope_pool: Seq<ScopeView>,
    pub roots: TableView<ScopeIdView>,
    pub warnings: ErrorView,
}

impl View for SemResult {
    type V = SemResultView;

    open spec fn view(&self) -> SemResultView {
        SemResultView {
            scope_pool: self.scope_pool@,
            roots: self.roots@,
            warnings: self.warnings@,
        }
    }
}

/// Whether integers of this many bytes exist.
pub open spec fn is_size(bytes: usize) -> bool {
    bytes == 1 || bytes == 2 || bytes == 4 || bytes == 8 || bytes == 16
}

/// The signed integer type of the given size.
pub open spec fn signed_of(bytes: usize) -> TypeView {
    if bytes == 1 {
        TypeView::Int8
    } else if bytes == 2 {
        TypeView::Int16
    } else if bytes == 4 {
        TypeView::Int32
    } else if bytes == 8 {
        TypeView::Int64
    } else {
        TypeView::Int128
    }
}

/// The unsigned integer type of the given size.
pub open spec fn unsigned_of(bytes: usize) -> TypeView {
    if bytes == 1 {
        TypeView::Uint8
    } else if bytes == 2 {
        TypeView::Uint16
    } else if bytes == 4 {
        TypeView::Uint32
    } else if bytes == 8 {
        TypeView::Uint64
    } else {
        TypeView::Uint128
    }
}

/// The signed and the unsigned integer type of the given size.
fn sized_types(bytes: usize) -> (r: (Type, Type))
    requires
        is_size(bytes),
    ensures
        r.0@ == signed_of(bytes),
        r.1@ == unsigned_of(bytes),
{
    if bytes == 1 {
        (Type::Int8, Type::Uint8)
    } else if bytes == 2 {
        (Type::Int16, Type::Uint16)
    } else if bytes == 4 {
        (Type::Int32, Type::Uint32)
    } else if bytes == 8 {
        (Type::Int64, Type::Uint64)
    } else {
        (Type::Int128, Type::Uint128)
    }
}

impl AnalyzerView {
    /// The identity of the scope of a root module.
    pub open spec fn root_id(name: Seq<char>) -> ScopeIdView {
        ScopeIdView { index: 0, sym_path: path_with(Seq::<char>::empty(), name) }
    }

    /// The scope of a root module.
    pub open spec fn root_scope(
        file_path: Seq<char>,
        name: Seq<char>,
        root: ObjectView,
    ) -> ScopeView {
        ScopeView {
            id: AnalyzerView::root_id(name),
            kind: ScopeKind::Module,
            file_path: Some(file_path),
            name,
            line_info: root.span(),
            payload: PayloadView::Unknown,
            parent: None,
            children: TableView::empty(),
            unique_counter: 0,
            block_counter: 0,
            loop_counter: 0,
        }
    }

    /// The analysis before its start: there is one scope, that of the root module, which was not
    /// visited yet.
    pub open spec fn new(
        settings: Settings,
        file_path: Seq<char>,
        name: Seq<char>,
        root: ObjectView,
    ) -> AnalyzerView {
        let id = AnalyzerView::root_id(name);
        AnalyzerView {
            scopes: seq![AnalyzerView::root_scope(file_path, name, root)],
            states: seq![ScopeEvalStateView::NotVisited(ScopeNodeView::Object(root))],
            roots: TableView::empty().inserted(name, id),
            stack: seq![id],
            type_int: signed_of(settings.register_size),
            type_uint: unsigned_of(settings.register_size),
            type_isize: signed_of(settings.pointer_size),
            type_usize: unsigned_of(settings.pointer_size),
            settings,
            saved_errors: ErrorView::empty(),
            warnings: seq![],
        }
    }

    /// The identities of the root scopes.
    pub open spec fn root_ids(self) -> Seq<ScopeIdView> {
        self.roots.values
    }

    /// The identities of the scopes that were not visited yet, those that were found and those
    /// from one on. No visit is in progress.
    pub open spec fn unfinished_from(self, found: Seq<ScopeIdView>, i: int) -> Result<
        Seq<ScopeIdView>,
        StopView,
    >
        decreases self.states.len() - i,
    {
        if i < 0 || i >= self.states.len() {
            Ok(found)
        } else {
            match self.states[i] {
                ScopeEvalStateView::NotVisited(_) => self.unfinished_from(
                    found.push(self.scopes[i].id),
                    i + 1,
                ),
                ScopeEvalStateView::VisitInProgress => Err(
                    StopView::Unsupported("probably some analyzer bug"@),
                ),
                ScopeEvalStateView::Visited => self.unfinished_from(found, i + 1),
            }
        }
    }

    /// The identities of the scopes that were not visited yet.
    pub open spec fn get_unfinished_scopes(self) -> Result<Seq<ScopeIdView>, StopView> {
        self.unfinished_from(seq![], 0)
    }

    /// The result of the whole analysis: all errors, or all scopes with the warnings.
    pub open spec fn analyze(self) -> Result<SemResultView, StopView> {
        match self.sem_analysis() {
            (s, Err(StopView::Errors(err))) => Err(StopView::Errors(s.saved_errors.chain(err))),
            (s, Err(StopView::Unsupported(msg))) => Err(StopView::Unsupported(msg)),
            (s, Ok(_)) => if s.saved_errors.is_empty() {
                Ok(
                    SemResultView {
                        scope_pool: s.scopes,
                        roots: s.roots,
                        warnings: ErrorView::Errors(s.warnings),
                    },
                )
            } else {
                Err(StopView::Errors(s.saved_errors))
            },
        }
    }
}

impl<'a> Analyzer<'a> {
    /// The analysis of a root module before its start.
    pub fn new(settings: Settings, file_path: &str, name: &str, root: &'a Object) -> (r: Self)
        requires
            is_size(settings.register_size),
            is_size(settings.pointer_size),
            root@.has_span(),
        ensures
            r@ == AnalyzerView::new(settings, file_path@, name@, root@),
            r@.wf(),
    {
        let mut sym_path: SymbolPath = SymbolPath::new();
        sym_path.push_name(name);
        let id: ScopeId = ScopeId { index: 0, sym_path };
        let scope: Scope = Scope {
            id: id.copy(),
            kind: ScopeKind::Module,
            file_path: Some(file_path.to_owned()),
            name: name.to_owned(),
            line_info: root.get_line_info(),
            payload: Payload::Unknown,
            parent: None,
            children: Table::empty(),
            unique_counter: 0,
            block_counter: 0,
            loop_counter: 0,
        };
        let mut scopes: Vec<Scope> = Vec::new();
        scopes.push(scope);
        let mut states: Vec<ScopeEvalState<'a>> = Vec::new();
        states.push(ScopeEvalState::NotVisited(ScopeNode::Object(root)));
        let roots: Table<ScopeId> = with_entry(Table::empty(), name.to_owned(), id.copy());
        let mut current_scope_stack: Vec<ScopeId> = Vec::new();
        current_scope_stack.push(id);
        let (type_int, type_uint) = sized_types(settings.register_size);
        let (type_isize, type_usize) = sized_types(settings.pointer_size);
        let r: Analyzer<'a> = Analyzer {
            scopes,
            states,
            roots,
            current_scope_stack,
            type_int,
            type_uint,
            type_isize,
            type_usize,
            settings,
            saved_errors: CompileError::new(),
            warnings: Vec::new(),
        };
        proof {
            reveal(Analyzer::model);
            reveal(AnalyzerView::wf);
            let goal = AnalyzerView::new(settings, file_path@, name@, root@);
            assert(r.scopes@[0]@ == goal.scopes[0]);
            assert(r@.scopes =~= goal.scopes);
            assert(r@.states =~= goal.states);
            assert(r@.stack =~= goal.stack);
            assert(r@.warnings =~= goal.warnings);
        }
        r
    }

    /// Analyzes the program, and gives all errors, or all scopes with the warnings.
    pub fn analyze(self) -> (r: Result<SemResult, Stop>)
        requires
            self@.wf(),
        ensures
            outcome(r) == self@.analyze(),
    {
        let mut analyzer: Analyzer<'a> = self;
        match analyzer.sem_analysis() {
            Err(Stop::Errors(err)) => {
                analyzer.save_error(err);
                proof {
                    reveal(Analyzer::model);
                }
                Err(Stop::Errors(analyzer.saved_errors))
            },
            Err(Stop::Unsupported(msg)) => Err(Stop::Unsupported(msg)),
            Ok(_) => {
                proof {
                    reveal(Analyzer::model);
                }
                if !analyzer.saved_errors.is_empty() {
                    Err(Stop::Errors(analyzer.saved_errors))
                } else {
                    Ok(
                        SemResult {
                            scope_pool: ScopePool::new(analyzer.scopes),
                            roots: analyzer.roots,
                            warnings: CompileError::Errors(analyzer.warnings),
                        },
                    )
                }
            },
        }
    }

    /// The identities of the root scopes.
    pub(crate) fn root_ids(&self) -> (r: Vec<ScopeId>)
        ensures
            views(r@) == self@.root_ids(),
    {
        proof {
            reveal(Analyzer::model);
        }
        let mut ids: Vec<ScopeId> = Vec::new();
        let mut i: usize = 0;
        while i < self.roots.values.len()
            invariant
                i <= self.roots.values@.len(),
                ids@.len() == i,
                forall|k: int| 0 <= k < i ==> (#[trigger] ids@[k])@ == self.roots.values@[k]@,
            decreases self.roots.values@.len() - i,
        {
            ids.push(self.roots.values[i].copy());
            i = i + 1;
        }
        assert(views(ids@) =~= self@.roots.values);
        ids
    }

    /// The identities of the scopes that were not visited yet.
    pub(crate) fn get_unfinished_scopes(&self) -> (r: Result<ScopeIds, Stop>)
        requires
            self@.wf(),
        ensures
            outcome(r) == self@.get_unfinished_scopes(),
    {
        broadcast use group_analyzer;

        proof {
            reveal(Analyzer::model);
            reveal(AnalyzerView::wf);
        }
        let mut ids: Vec<ScopeId> = Vec::new();
        let mut i: usize = 0;
        let ghost goal = self@.get_unfinished_scopes();
        while i < self.states.len()
            invariant
                self@.wf(),
                i <= self.states@.len(),
                goal == self@.get_unfinished_scopes(),
                goal == self@.unfinished_from(views(ids@), i as int),
            decreases self.states@.len() - i,
        {
            proof {
                reveal(Analyzer::model);
                reveal(AnalyzerView::wf);
            }
            assert(self@.states[i as int] == self.states@[i as int]@);
            assert(self@.scopes[i as int] == self.scopes@[i as int]@);
            match self.states[i] {
                ScopeEvalState::NotVisited(_) => {
                    let ghost held = ids@;
                    let id: ScopeId = self.scopes[i].id.copy();
                    let ghost found = id@;
                    ids.push(id);
                    assert(views(ids@) =~= views(held).push(found));
                },
                ScopeEvalState::VisitInProgress => {
                    return Err(Stop::Unsupported("probably some analyzer bug".to_owned()));
                },
                ScopeEvalState::Visited => {},
            }
            i = i + 1;
        }
        Ok(ScopeIds { list: ids })
    }
}

impl AnalyzerView {
    /// Declares everything that a list of declarations gives a name to, without visiting it, and
    /// reports all that is wrong at once.
    #[verifier::opaque]
    pub open spec fn pre_declare_decls(
        self,
        decls: Seq<DeclView>,
        errs: ErrorView,
        i: int,
    ) -> (AnalyzerView, Result<(), StopView>)
        decreases decls.len() - i,
    {
        let s = self;
        if i < 0 || i >= decls.len() {
            if errs.is_empty() {
                (s, Ok(()))
            } else {
            (s, Err(StopView::Errors(errs)))
            }
        } else {
        let (s, result) = s.pre_declare_decl(decls[i]);
        match result {
            Ok(_) => {
                s.pre_declare_decls(decls, errs, i + 1)
            },
            Err(StopView::Errors(err)) => {
                s.pre_declare_decls(decls, errs.chain(err), i + 1)
            },
            Err(e) => {
                (s, Err(e))
            },
        }
        }
    }

    /// Declares what a declaration outside of functions gives a name to. A module is visited, and
    /// what it holds is declared too. The result is what is left to visit, in order: no module is
    /// among it.
    #[verifier::opaque]
    pub open spec fn declaration_first_stage(
        self,
        node: DeclView,
        fuel: int,
    ) -> (AnalyzerView, Result<Seq<ScopeIdView>, StopView>)
        decreases fuel, 1nat, 0int,
    {
        let s = self;
        if fuel <= 0 {
            (s, Err(StopView::Unsupported("nested too deeply"@)))
        } else {
        match s.pre_declare_decl(node) { (s, Err(e)) => (s, Err(e)), (s, Ok(scope_id)) => {
        match node {
            DeclView::Decl { name, taipe, eq_token, object } => {
                match object {
                    Some(ObjectView::ExternModule { line_info: _, value: _ }) => {
                        (s, Err(StopView::Unsupported("external modules are not implemented yet"@)))
                    },
                    Some(ObjectView::Module { line_info: _, decls }) => {
                        match s.check_colon(eq_token) { (s, Err(e)) => (s, Err(e)), (s, Ok(_)) => {
                        if s.get_current_function().is_some() {
                            (
                                s,
                                Err(
                                    StopView::Errors(
                                        s.make_err(
                                            "module cannot be declared in a function"@,
                                            name.line_info,
                                        ),
                                    ),
                                ),
                            )
                        } else {
                        if s.get_current_block().is_some() {
                            (
                                s,
                                Err(
                                    StopView::Errors(
                                        s.make_err(
                                            "module cannot be declared in a block"@,
                                            name.line_info,
                                        ),
                                    ),
                                ),
                            )
                        } else {
                        let s = s.set_kind(scope_id, ScopeKind::Module);
                        match taipe {
                            Some(annotation) => {
                                match annotation.line() { Err(e) => (s, Err(e)), Ok(line) => {
                                (
                                    s,
                                    Err(
                                        StopView::Errors(
                                            ErrorView::pair(
                                                s.make_err("modules do not have a type"@, line),
                                                s.make_help(
                                                    "consider removing the type annotation"@,
                                                ),
                                            ),
                                        ),
                                    ),
                                )
                                }}
                            },
                            None => {
                                match s.push_current_scope(scope_id) {
                                    (s, Err(e)) => (s, Err(e)), (s, Ok(_)) => {
                                let s = s.set_scope_eval_state(
                                    scope_id,
                                    ScopeEvalStateView::Visited,
                                );
                                match s.declare_module(
                                    decls,
                                    Seq::<ScopeIdView>::empty(),
                                    fuel - 1,
                                    0,
                                ) { (s, Err(e)) => (s, Err(e)), (s, Ok(ids)) => {
                                let s = s.pop_current_scope();
                                (s, Ok(ids))
                                }}}}
                            },
                        }
                        }}}}
                    },
                    _ => {
                        (s, Ok(only_id(scope_id)))
                    },
                }
            },
            DeclView::DeclWithDirective { name: _, taipe: _, eq_token: _, directive: _ } => {
                (s, Ok(only_id(scope_id)))
            },
            DeclView::Using { line_info: _, items: _ } => {
                (s, Ok(Seq::<ScopeIdView>::empty()))
            },
        }
        }}}
    }

    /// Declares what a module holds, up to the first error. The result is what was found to be
    /// left to visit, and what is found now.
    #[verifier::opaque]
    pub open spec fn declare_module(
        self,
        decls: Seq<DeclView>,
        ids: Seq<ScopeIdView>,
        fuel: int,
        i: int,
    ) -> (AnalyzerView, Result<Seq<ScopeIdView>, StopView>)
        decreases fuel, 2nat, decls.len() - i,
    {
        let s = self;
        if i < 0 || i >= decls.len() {
            (s, Ok(ids))
        } else {
        match s.declaration_first_stage(decls[i], fuel) {
            (s, Err(e)) => (s, Err(e)), (s, Ok(more)) => {
        s.declare_module(decls, ids_joined(ids, more), fuel, i + 1)
        }}}
    }

    /// Declares what a root module holds, and collects the errors.
    #[verifier::opaque]
    pub open spec fn declare_root(
        self,
        decls: Seq<DeclView>,
        errs: ErrorView,
        i: int,
    ) -> (AnalyzerView, Result<ErrorView, StopView>)
        decreases decls.len() - i,
    {
        let s = self;
        if i < 0 || i >= decls.len() {
            (s, Ok(errs))
        } else {
        let (s, result) = s.declaration_first_stage(decls[i], 0xffff_ffff_ffff_ffff);
        match result {
            Ok(_) => {
                s.declare_root(decls, errs, i + 1)
            },
            Err(StopView::Errors(err)) => {
                s.declare_root(decls, errs.chain(err), i + 1)
            },
            Err(e) => {
                (s, Err(e))
            },
        }
        }
    }

    /// Declares what a root module holds, and completes the visit of it.
    #[verifier::opaque]
    pub open spec fn visit_root(
        self,
        id: ScopeIdView,
        errs: ErrorView,
    ) -> (AnalyzerView, Result<ErrorView, StopView>)
    {
        let s = self;
        match s.get_scope_eval_state(id) { Err(e) => (s, Err(e)), Ok(state) => {
        match state {
            ScopeEvalStateView::NotVisited(ScopeNodeView::Object(object)) => {
                match object {
                    ObjectView::Module { line_info: _, decls } => {
                        match s.push_current_scope(id) { (s, Err(e)) => (s, Err(e)), (s, Ok(_)) => {
                        match s.declare_root(decls, errs, 0) {
                            (s, Err(e)) => (s, Err(e)), (s, Ok(all)) => {
                        let s = s.pop_current_scope();
                        let s = s.set_scope_eval_state(id, ScopeEvalStateView::Visited);
                        (s, Ok(all))
                        }}}}
                    },
                    _ => {
                        (s, Err(StopView::Unsupported("not supposed to happen"@)))
                    },
                }
            },
            _ => {
                (s, Err(StopView::Unsupported("not supposed to happen"@)))
            },
        }
        }}
    }

    /// Declares what the root modules hold, and collects the errors.
    #[verifier::opaque]
    pub open spec fn visit_roots(
        self,
        ids: Seq<ScopeIdView>,
        errs: ErrorView,
        i: int,
    ) -> (AnalyzerView, Result<ErrorView, StopView>)
        decreases ids.len() - i,
    {
        let s = self;
        if i < 0 || i >= ids.len() {
            (s, Ok(errs))
        } else {
        match s.visit_root(ids[i], errs) { (s, Err(e)) => (s, Err(e)), (s, Ok(all)) => {
        s.visit_roots(ids, all, i + 1)
        }}}
    }

    /// Visits the scopes that were not visited yet, up to the first error.
    #[verifier::opaque]
    pub open spec fn visit_unfinished(
        self,
        ids: Seq<ScopeIdView>,
        i: int,
    ) -> (AnalyzerView, Result<(), StopView>)
        decreases ids.len() - i,
    {
        let s = self;
        if i < 0 || i >= ids.len() {
            (s, Ok(()))
        } else {
        match s.get_scope_eval_state(ids[i]) { Err(e) => (s, Err(e)), Ok(state) => {
        match state {
            ScopeEvalStateView::NotVisited(ScopeNodeView::Decl(decl)) => {
                match s.get_scope(ids[i]) { Err(e) => (s, Err(e)), Ok(scope) => {
                match scope.parent {
                    None => {
                        (
                            s,
                            Err(
                                StopView::Unsupported(
                                    "called `Option::unwrap()` on a `None` value"@,
                                ),
                            ),
                        )
                    },
                    Some(found) => {
                        let parent = found;
                        match s.push_current_scope(parent) {
                            (s, Err(e)) => (s, Err(e)), (s, Ok(_)) => {
                        match s.visit_decl(decl, 0xffff_ffff_ffff_ffff) {
                            (s, Err(e)) => (s, Err(e)), (s, Ok(ignored)) => {
                        let s = s.pop_current_scope();
                        s.visit_unfinished(ids, i + 1)
                        }}}}
                    },
                }
                }}
            },
            ScopeEvalStateView::NotVisited(ScopeNodeView::Object(_)) => {
                (s, Err(StopView::Unsupported("probably some analyzer bug"@)))
            },
            ScopeEvalStateView::VisitInProgress => {
                (s, Err(StopView::Unsupported("probably some analyzer bug"@)))
            },
            ScopeEvalStateView::Visited => {
                s.visit_unfinished(ids, i + 1)
            },
        }
        }}}
    }

    /// Visits scopes until none is left that was not visited. Declarations without a name outside
    /// of blocks are declared anew by every visit: with them there is no end.
    #[verifier::opaque]
    pub open spec fn finish_scopes(
        self,
        fuel: int,
    ) -> (AnalyzerView, Result<(), StopView>)
        decreases fuel, 1nat, 0int,
    {
        let s = self;
        if fuel < 1 {
            (s, Err(StopView::Unsupported("the analysis does not end"@)))
        } else {
        match s.get_unfinished_scopes() { Err(e) => (s, Err(e)), Ok(unfinished) => {
        if unfinished.len() == 0 {
            (s, Ok(()))
        } else {
        match s.visit_unfinished(unfinished, 0) { (s, Err(e)) => (s, Err(e)), (s, Ok(_)) => {
        s.finish_scopes(fuel - 1)
        }}}}}}
    }

    /// The whole analysis: first everything outside of functions is declared, then every
    /// declaration is visited.
    #[verifier::opaque]
    pub open spec fn sem_analysis(
        self,
    ) -> (AnalyzerView, Result<(), StopView>)
    {
        let s = self;
        let ids = s.root_ids();
        match s.visit_roots(ids, ErrorView::empty(), 0) {
            (s, Err(e)) => (s, Err(e)), (s, Ok(errs)) => {
        if !errs.is_empty() {
            (s, Err(StopView::Errors(errs)))
        } else {
        s.finish_scopes(0x400)
        }}}
    }
}

impl<'a> Analyzer<'a> {
    /// Declares everything that a list of declarations gives a name to, without visiting it, and
    /// reports all that is wrong at once.
    #[verifier::loop_isolation(false)]
    pub fn pre_declare_decls(
        &mut self,
        decls: &'a Vec<Decl>,
        errs: CompileError,
    ) -> (r: Result<(), Stop>)
        requires
            old(self)@.wf(),
        ensures
            (final(self)@, outcome(r)) == old(self)@.pre_declare_decls(
                decl_models(decls@),
                errs@,
                0,
            ),
            final(self)@.follows(old(self)@),
            r is Ok ==> final(self)@.stack == old(self)@.stack,
    {
        broadcast use group_analyzer;

        proof {
            lemma_begin(self@);
            reveal(AnalyzerView::pre_declare_decls);
        }
        let ghost goal = self@.pre_declare_decls(decl_models(decls@), errs@, 0);
        let ghost begin = self@;
        let mut errs: CompileError = errs;
        let mut i: usize = 0;
        while i < decls.len()
            invariant
                i <= decls@.len(),
                goal == self@.pre_declare_decls(decl_models(decls@), errs@, i as int),
                self@.follows(begin),
                self@.comes_from(begin),
                self@.stack == begin.stack,
            decreases decls@.len() - i,
        {
            proof {
                reveal(AnalyzerView::pre_declare_decls);
            }
            match self.pre_declare_decl(&decls[i]) {
                Ok(_) => {
                    i = i + 1;
                },
                Err(Stop::Errors(err)) => {
                    errs = errs.chain(err);
                    i = i + 1;
                },
                Err(e) => {
                    return Err(e);
                },
            }
        }
        if errs.is_empty() {
            return Ok(());
        }
        Err(Stop::Errors(errs))
    }

    /// Declares what a declaration outside of functions gives a name to. A module is visited, and
    /// what it holds is declared too. The result is what is left to visit, in order: no module is
    /// among it.
    pub(crate) fn declaration_first_stage(
        &mut self,
        node: &'a Decl,
        fuel: u64,
    ) -> (r: Result<ScopeIds, Stop>)
        requires
            old(self)@.wf(),
        ensures
            (final(self)@, outcome(r)) == old(self)@.declaration_first_stage(node@, fuel as int),
            final(self)@.follows(old(self)@),
            r is Ok ==> final(self)@.stack == old(self)@.stack,
        decreases fuel, 1nat,
    {
        broadcast use group_analyzer;

        proof {
            lemma_begin(self@);
            reveal(AnalyzerView::declaration_first_stage);
            reveal(AnalyzerView::declare_module);
            reveal(ast::Decl::model);
            reveal(ast::Object::model);
            reveal(ast::Type::model);
        }
        if fuel == 0 {
            return Err(Stop::Unsupported("nested too deeply".to_owned()));
        }
        proof {
            reveal(ast::Object::model);
                    reveal(ast::Type::model);
        }
        let scope_id = match self.pre_declare_decl(node) {
            Ok(v) => v,
            Err(e) => {
                return Err(e);
            },
        };
        match node {
            Decl::Decl { name, taipe, eq_token, object } => {
                match object {
                    Some(Object::ExternModule { line_info: _, value: _ }) => {
                        Err(
                            Stop::Unsupported(
                                "external modules are not implemented yet".to_owned(),
                            ),
                        )
                    },
                    Some(Object::Module { line_info: _, decls }) => {
                        match self.check_colon(eq_token) {
                            Ok(_) => {},
                            Err(e) => {
                                return Err(e);
                            },
                        }
                        if self.get_current_function().is_some() {
                            return Err(
                                Stop::Errors(
                                    self.make_err(
                                        "module cannot be declared in a function",
                                        name.line_info,
                                    ),
                                ),
                            );
                        }
                        if self.get_current_block().is_some() {
                            return Err(
                                Stop::Errors(
                                    self.make_err(
                                        "module cannot be declared in a block",
                                        name.line_info,
                                    ),
                                ),
                            );
                        }
                        self.set_kind(&scope_id, ScopeKind::Module);
                        match taipe {
                            Some(annotation) => {
                                let line = match line_of(annotation) {
                                    Ok(v) => v,
                                    Err(e) => {
                                        return Err(e);
                                    },
                                };
                                Err(
                                    Stop::Errors(
                                        CompileError::pair(
                                            self.make_err("modules do not have a type", line),
                                            self.make_help("consider removing the type annotation"),
                                        ),
                                    ),
                                )
                            },
                            None => {
                                match self.push_current_scope(&scope_id) {
                                    Ok(_) => {},
                                    Err(e) => {
                                        return Err(e);
                                    },
                                }
                                self.set_scope_eval_state(&scope_id, ScopeEvalState::Visited);
                                let ids = match self.declare_module(decls, no_ids(), fuel - 1) {
                                    Ok(v) => v,
                                    Err(e) => {
                                        return Err(e);
                                    },
                                };
                                self.pop_current_scope();
                                Ok(ids)
                            },
                        }
                    },
                    _ => {
                        Ok(one_id(scope_id))
                    },
                }
            },
            Decl::DeclWithDirective { name: _, taipe: _, eq_token: _, directive: _ } => {
                Ok(one_id(scope_id))
            },
            Decl::Using { line_info: _, items: _ } => {
                Ok(no_ids())
            },
        }
    }

    /// Declares what a module holds, up to the first error. The result is what was found to be
    /// left to visit, and what is found now.
    #[verifier::loop_isolation(false)]
    pub(crate) fn declare_module(
        &mut self,
        decls: &'a Vec<Decl>,
        ids: ScopeIds,
        fuel: u64,
    ) -> (r: Result<ScopeIds, Stop>)
        requires
            old(self)@.wf(),
        ensures
            (final(self)@, outcome(r)) == old(self)@.declare_module(
                decl_models(decls@),
                ids@,
                fuel as int,
                0,
            ),
            final(self)@.follows(old(self)@),
            r is Ok ==> final(self)@.stack == old(self)@.stack,
        decreases fuel, 2nat,
    {
        broadcast use group_analyzer;

        proof {
            lemma_begin(self@);
            reveal(AnalyzerView::declare_module);
            reveal(AnalyzerView::declaration_first_stage);
        }
        let ghost goal = self@.declare_module(decl_models(decls@), ids@, fuel as int, 0);
        let ghost begin = self@;
        let mut ids: ScopeIds = ids;
        let mut i: usize = 0;
        while i < decls.len()
            invariant
                i <= decls@.len(),
                goal == self@.declare_module(decl_models(decls@), ids@, fuel as int, i as int),
                self@.follows(begin),
                self@.comes_from(begin),
                self@.stack == begin.stack,
            decreases decls@.len() - i,
        {
            proof {
                reveal(AnalyzerView::declare_module);
                reveal(AnalyzerView::declaration_first_stage);
            }
            let more = match self.declaration_first_stage(&decls[i], fuel) {
                Ok(v) => v,
                Err(e) => {
                    return Err(e);
                },
            };
            ids = join_ids(ids, more);
            i = i + 1;
        }
        Ok(ids)
    }

    /// Declares what a root module holds, and collects the errors.
    #[verifier::loop_isolation(false)]
    pub(crate) fn declare_root(
        &mut self,
        decls: &'a Vec<Decl>,
        errs: CompileError,
    ) -> (r: Result<CompileError, Stop>)
        requires
            old(self)@.wf(),
        ensures
            (final(self)@, outcome(r)) == old(self)@.declare_root(decl_models(decls@), errs@, 0),
            final(self)@.follows(old(self)@),
    {
        broadcast use group_analyzer;

        proof {
            lemma_begin(self@);
            reveal(AnalyzerView::declare_root);
        }
        let ghost goal = self@.declare_root(decl_models(decls@), errs@, 0);
        let ghost begin = self@;
        let mut errs: CompileError = errs;
        let mut i: usize = 0;
        while i < decls.len()
            invariant
                i <= decls@.len(),
                goal == self@.declare_root(decl_models(decls@), errs@, i as int),
                self@.follows(begin),
                self@.comes_from(begin),
            decreases decls@.len() - i,
        {
            proof {
                reveal(AnalyzerView::declare_root);
            }
            match self.declaration_first_stage(&decls[i], 0xffff_ffff_ffff_ffff) {
                Ok(_) => {
                    i = i + 1;
                },
                Err(Stop::Errors(err)) => {
                    errs = errs.chain(err);
                    i = i + 1;
                },
                Err(e) => {
                    return Err(e);
                },
            }
        }
        Ok(errs)
    }

    /// Declares what a root module holds, and completes the visit of it.
    pub(crate) fn visit_root(
        &mut self,
        id: &ScopeId,
        errs: CompileError,
    ) -> (r: Result<CompileError, Stop>)
        requires
            old(self)@.wf(),
        ensures
            (final(self)@, outcome(r)) == old(self)@.visit_root(id@, errs@),
            final(self)@.follows(old(self)@),
    {
        broadcast use group_analyzer;

        proof {
            lemma_begin(self@);
            reveal(AnalyzerView::visit_root);
            reveal(ast::Object::model);
        }
        proof {
            reveal(ast::Decl::model);
        }
        let state = match self.get_scope_eval_state(id) {
            Ok(v) => v,
            Err(e) => {
                return Err(e);
            },
        };
        match state {
            ScopeEvalState::NotVisited(ScopeNode::Object(object)) => {
                match object {
                    Object::Module { line_info: _, decls } => {
                        match self.push_current_scope(id) {
                            Ok(_) => {},
                            Err(e) => {
                                return Err(e);
                            },
                        }
                        let all = match self.declare_root(decls, errs) {
                            Ok(v) => v,
                            Err(e) => {
                                return Err(e);
                            },
                        };
                        self.pop_current_scope();
                        self.set_scope_eval_state(id, ScopeEvalState::Visited);
                        Ok(all)
                    },
                    _ => {
                        Err(Stop::Unsupported("not supposed to happen".to_owned()))
                    },
                }
            },
            _ => {
                Err(Stop::Unsupported("not supposed to happen".to_owned()))
            },
        }
    }

    /// Declares what the root modules hold, and collects the errors.
    #[verifier::loop_isolation(false)]
    pub(crate) fn visit_roots(
        &mut self,
        ids: &Vec<ScopeId>,
        errs: CompileError,
    ) -> (r: Result<CompileError, Stop>)
        requires
            old(self)@.wf(),
        ensures
            (final(self)@, outcome(r)) == old(self)@.visit_roots(views(ids@), errs@, 0),
            final(self)@.follows(old(self)@),
    {
        broadcast use group_analyzer;

        proof {
            lemma_begin(self@);
            reveal(AnalyzerView::visit_roots);
        }
        let ghost goal = self@.visit_roots(views(ids@), errs@, 0);
        let ghost begin = self@;
        let mut errs: CompileError = errs;
        let mut i: usize = 0;
        while i < ids.len()
            invariant
                i <= ids@.len(),
                goal == self@.visit_roots(views(ids@), errs@, i as int),
                self@.follows(begin),
                self@.comes_from(begin),
            decreases ids@.len() - i,
        {
            proof {
                reveal(AnalyzerView::visit_roots);
            }
            let all = match self.visit_root(&ids[i], errs) {
                Ok(v) => v,
                Err(e) => {
                    return Err(e);
                },
            };
            errs = all;
            i = i + 1;
        }
        Ok(errs)
    }

    /// Visits the scopes that were not visited yet, up to the first error.
    #[verifier::loop_isolation(false)]
    pub(crate) fn visit_unfinished(
        &mut self,
        ids: &Vec<ScopeId>,
    ) -> (r: Result<(), Stop>)
        requires
            old(self)@.wf(),
        ensures
            (final(self)@, outcome(r)) == old(self)@.visit_unfinished(views(ids@), 0),
            final(self)@.follows(old(self)@),
    {
        broadcast use group_analyzer;

        proof {
            lemma_begin(self@);
            reveal(AnalyzerView::visit_unfinished);
        }
        let ghost goal = self@.visit_unfinished(views(ids@), 0);
        let ghost begin = self@;
        let mut i: usize = 0;
        while i < ids.len()
            invariant
                i <= ids@.len(),
                goal == self@.visit_unfinished(views(ids@), i as int),
                self@.follows(begin),
                self@.comes_from(begin),
            decreases ids@.len() - i,
        {
            proof {
                reveal(AnalyzerView::visit_unfinished);
            }
            let state = match self.get_scope_eval_state(&ids[i]) {
                Ok(v) => v,
                Err(e) => {
                    return Err(e);
                },
            };
            match state {
                ScopeEvalState::NotVisited(ScopeNode::Decl(decl)) => {
                    let scope = match self.get_scope(&ids[i]) {
                        Ok(v) => v,
                        Err(e) => {
                            return Err(e);
                        },
                    };
                    match &scope.parent {
                        None => {
                            return Err(
                                Stop::Unsupported(
                                    "called `Option::unwrap()` on a `None` value".to_owned(),
                                ),
                            );
                        },
                        Some(found) => {
                            let parent = found.copy();
                            match self.push_current_scope(&parent) {
                                Ok(_) => {},
                                Err(e) => {
                                    return Err(e);
                                },
                            }
                            let ignored = match self.visit_decl(decl, 0xffff_ffff_ffff_ffff) {
                                Ok(v) => v,
                                Err(e) => {
                                    return Err(e);
                                },
                            };
                            self.pop_current_scope();
                            i = i + 1;
                        },
                    }
                },
                ScopeEvalState::NotVisited(ScopeNode::Object(_)) => {
                    return Err(Stop::Unsupported("probably some analyzer bug".to_owned()));
                },
                ScopeEvalState::VisitInProgress => {
                    return Err(Stop::Unsupported("probably some analyzer bug".to_owned()));
                },
                ScopeEvalState::Visited => {
                    i = i + 1;
                },
            }
        }
        Ok(())
    }

    /// Visits scopes until none is left that was not visited. Declarations without a name outside
    /// of blocks are declared anew by every visit: with them there is no end.
    pub(crate) fn finish_scopes(
        &mut self,
        fuel: u64,
    ) -> (r: Result<(), Stop>)
        requires
            old(self)@.wf(),
        ensures
            (final(self)@, outcome(r)) == old(self)@.finish_scopes(fuel as int),
            final(self)@.follows(old(self)@),
        decreases fuel, 1nat,
    {
        broadcast use group_analyzer;

        proof {
            lemma_begin(self@);
            reveal(AnalyzerView::finish_scopes);
        }
        if fuel < 1 {
            return Err(Stop::Unsupported("the analysis does not end".to_owned()));
        }
        let unfinished = match self.get_unfinished_scopes() {
            Ok(v) => v,
            Err(e) => {
                return Err(e);
            },
        };
        if unfinished.list.len() == 0 {
            return Ok(());
        }
        match self.visit_unfinished(&unfinished.list) {
            Ok(_) => {},
            Err(e) => {
                return Err(e);
            },
        }
        self.finish_scopes(fuel - 1)
    }

    /// The whole analysis: first everything outside of functions is declared, then every
    /// declaration is visited.
    pub(crate) fn sem_analysis(
        &mut self,
    ) -> (r: Result<(), Stop>)
        requires
            old(self)@.wf(),
        ensures
            (final(self)@, outcome(r)) == old(self)@.sem_analysis(),
            final(self)@.follows(old(self)@),
    {
        broadcast use group_analyzer;

        proof {
            lemma_begin(self@);
            reveal(AnalyzerView::sem_analysis);
        }
        let ids = self.root_ids();
        let errs = match self.visit_roots(&ids, CompileError::new()) {
            Ok(v) => v,
            Err(e) => {
                return Err(e);
            },
        };
        if !errs.is_empty() {
            return Err(Stop::Errors(errs));
        }
        self.finish_scopes(0x400)
    }
}

} // verus!
