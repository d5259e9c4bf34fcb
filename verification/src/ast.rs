use vstd::prelude::*;

use crate::common::{line_or_stop, span_from, HasLineInfo, LineInfo, Span, StopView};
use crate::token::{Token, token_models, TokenView};

verus! {

/// A declaration.
#[derive(Debug)]
#[allow(inconsistent_fields)]
pub enum Decl {
    Decl { name: Token, taipe: Option<Type>, eq_token: Option<Token>, object: Option<Object> },
    DeclWithDirective { name: Token, taipe: Type, eq_token: Token, directive: Token },
    Using { line_info: LineInfo, items: Vec<Token> },
}

/// What a declaration gives a name to.
#[derive(Debug)]
#[allow(inconsistent_fields)]
pub enum Object {
    ExternModule { line_info: LineInfo, value: Token },
    Module { line_info: LineInfo, decls: Vec<Decl> },
    Fun { line_info: LineInfo, params: Vec<Param>, ret: Option<Type>, body: Option<Stmt> },
    Compound { line_info: LineInfo, field: Field },
    Typedef(Type),
    Expr(Expr),
}

/// A field of a struct or a union, or a nested one.
#[derive(Debug)]
#[allow(inconsistent_fields)]
pub enum Field {
    Compound { line_info: LineInfo, token: Token, fields: Vec<Field> },
    Decl { name: Token, taipe: Type, eq_token: Option<Token>, expr: Option<Expr> },
}

/// A parameter of a function.
#[derive(Debug)]
pub struct Param {
    pub name: Token,
    pub taipe: Type,
    pub eq_token: Option<Token>,
    pub expr: Option<Expr>,
}

/// A statement.
#[derive(Debug)]
#[allow(inconsistent_fields)]
pub enum Stmt {
    If { line_info: LineInfo, expr: Expr, then_body: Box<Stmt>, else_body: Option<Box<Stmt>> },
    While { line_info: LineInfo, label: Option<Token>, expr: Expr, then_body: Box<Stmt> },
    Block { line_info: LineInfo, stmts: Vec<Stmt> },
    Yield { token: Token, expr: Expr },
    Continue { token: Token, label: Option<Token> },
    Break { token: Token, label: Option<Token> },
    Return { token: Token, expr: Option<Expr> },
    Decl(Box<Decl>),
    Expr(Box<Expr>),
    Nop(Token),
}

/// A type as it is written.
#[derive(Debug)]
#[allow(inconsistent_fields)]
pub enum Type {
    Path { items: Vec<Token> },
    Function { line_info: LineInfo, params: Vec<Type>, ret: Box<Type> },
    Const { token: Token, taipe: Box<Type> },
    Pointer { token: Token, taipe: Box<Type> },
    Array { line_info: LineInfo, taipe: Box<Type>, expr: Option<Expr> },
    Fat { line_info: LineInfo, taipe: Box<Type> },
    Paren { line_info: LineInfo, taipe: Box<Type> },
    Tuple { line_info: LineInfo, types: Vec<Type> },
    Literal(Token),
}

/// An argument of a call.
#[derive(Debug)]
pub struct Arg {
    pub name: Option<Token>,
    pub expr: Expr,
}

/// An expression.
#[derive(Debug)]
#[allow(inconsistent_fields)]
pub enum Expr {
    Block { line_info: LineInfo, stmts: Vec<Stmt> },
    Assign { lhses: Vec<Expr>, op: Token, rhses: Vec<Expr> },
    Binary { left: Box<Expr>, op: Token, right: Box<Expr> },
    Cast { expr: Box<Expr>, taipe: Box<Type> },
    Unary { op: Token, expr: Box<Expr> },
    Member { expr: Box<Expr>, name: Token },
    Call { line_info: LineInfo, expr: Box<Expr>, args: Vec<Arg> },
    Index { line_info: LineInfo, expr: Box<Expr>, items: Vec<Expr> },
    Literal(Token),
    Paren { line_info: LineInfo, expr: Box<Expr> },
    Tuple { line_info: LineInfo, exprs: Vec<Expr> },
    ArrayLit { line_info: LineInfo, items: Vec<Expr> },
    Compeval { line_info: LineInfo, trivial: Option<Token>, expr: Box<Expr> },
}

/// The model: a declaration.
#[allow(inconsistent_fields)]
pub enum DeclView {
    Decl {
        name: TokenView,
        taipe: Option<TypeView>,
        eq_token: Option<TokenView>,
        object: Option<ObjectView>,
    },
    DeclWithDirective {
        name: TokenView,
        taipe: TypeView,
        eq_token: TokenView,
        directive: TokenView,
    },
    Using { line_info: Span, items: Seq<TokenView> },
}

/// The model: what a declaration gives a name to.
#[allow(inconsistent_fields)]
pub enum ObjectView {
    ExternModule { line_info: Span, value: TokenView },
    Module { line_info: Span, decls: Seq<DeclView> },
    Fun { line_info: Span, params: Seq<ParamView>, ret: Option<TypeView>, body: Option<StmtView> },
    Compound { line_info: Span, field: FieldView },
    Typedef(TypeView),
    Expr(ExprView),
}

/// The model: a field of a struct or a union, or a nested one.
#[allow(inconsistent_fields)]
pub enum FieldView {
    Compound { line_info: Span, token: TokenView, fields: Seq<FieldView> },
    Decl { name: TokenView, taipe: TypeView, eq_token: Option<TokenView>, expr: Option<ExprView> },
}

/// The model: a parameter of a function.
pub struct ParamView {
    pub name: TokenView,
    pub taipe: TypeView,
    pub eq_token: Option<TokenView>,
    pub expr: Option<ExprView>,
}

/// The model: a statement.
#[allow(inconsistent_fields)]
pub enum StmtView {
    If {
        line_info: Span,
        expr: ExprView,
        then_body: Box<StmtView>,
        else_body: Option<Box<StmtView>>,
    },
    While { line_info: Span, label: Option<TokenView>, expr: ExprView, then_body: Box<StmtView> },
    Block { line_info: Span, stmts: Seq<StmtView> },
    Yield { token: TokenView, expr: ExprView },
    Continue { token: TokenView, label: Option<TokenView> },
    Break { token: TokenView, label: Option<TokenView> },
    Return { token: TokenView, expr: Option<ExprView> },
    Decl(Box<DeclView>),
    Expr(Box<ExprView>),
    Nop(TokenView),
}

/// The model: a type as it is written.
#[allow(inconsistent_fields)]
pub enum TypeView {
    Path { items: Seq<TokenView> },
    Function { line_info: Span, params: Seq<TypeView>, ret: Box<TypeView> },
    Const { token: TokenView, taipe: Box<TypeView> },
    Pointer { token: TokenView, taipe: Box<TypeView> },
    Array { line_info: Span, taipe: Box<TypeView>, expr: Option<ExprView> },
    Fat { line_info: Span, taipe: Box<TypeView> },
    Paren { line_info: Span, taipe: Box<TypeView> },
    Tuple { line_info: Span, types: Seq<TypeView> },
    Literal(TokenView),
}

/// The model: an argument of a call.
pub struct ArgView {
    pub name: Option<TokenView>,
    pub expr: ExprView,
}

/// The model: an expression.
#[allow(inconsistent_fields)]
pub enum ExprView {
    Block { line_info: Span, stmts: Seq<StmtView> },
    Assign { lhses: Seq<ExprView>, op: TokenView, rhses: Seq<ExprView> },
    Binary { left: Box<ExprView>, op: TokenView, right: Box<ExprView> },
    Cast { expr: Box<ExprView>, taipe: Box<TypeView> },
    Unary { op: TokenView, expr: Box<ExprView> },
    Member { expr: Box<ExprView>, name: TokenView },
    Call { line_info: Span, expr: Box<ExprView>, args: Seq<ArgView> },
    Index { line_info: Span, expr: Box<ExprView>, items: Seq<ExprView> },
    Literal(TokenView),
    Paren { line_info: Span, expr: Box<ExprView> },
    Tuple { line_info: Span, exprs: Seq<ExprView> },
    ArrayLit { line_info: Span, items: Seq<ExprView> },
    Compeval { line_info: Span, trivial: Option<TokenView>, expr: Box<ExprView> },
}

/// The model of a token that may be absent.
pub open spec fn option_token_model(t: Option<Token>) -> Option<TokenView> {
    match t {
        Some(v) => Some(v@),
        None => None,
    }
}

impl Decl {
    /// The model.
    #[verifier::opaque]
    pub open spec fn model(self) -> DeclView
        decreases self,
    {
        match self {
            Decl::Decl { name, taipe, eq_token, object } => DeclView::Decl {
                name: name@,
                taipe: match taipe {
 Some(v) => Some(v.model()),
 None => None,
 },
                eq_token: option_token_model(eq_token),
                object: match object {
 Some(v) => Some(v.model()),
 None => None,
 },
            },
            Decl::DeclWithDirective {
                name,
                taipe,
                eq_token,
                directive,
            } => DeclView::DeclWithDirective {
                name: name@,
                taipe: taipe.model(),
                eq_token: eq_token@,
                directive: directive@,
            },
            Decl::Using { line_info, items } => DeclView::Using {
                line_info: line_info@,
                items: token_models(items@),
            },
        }
    }
}

impl View for Decl {
    type V = DeclView;

    open spec fn view(&self) -> DeclView {
        self.model()
    }
}

impl Object {
    /// The model.
    #[verifier::opaque]
    pub open spec fn model(self) -> ObjectView
        decreases self,
    {
        match self {
            Object::ExternModule { line_info, value } => ObjectView::ExternModule {
                line_info: line_info@,
                value: value@,
            },
            Object::Module { line_info, decls } => ObjectView::Module {
                line_info: line_info@,
                decls: decl_models(decls@),
            },
            Object::Fun { line_info, params, ret, body } => ObjectView::Fun {
                line_info: line_info@,
                params: param_models(params@),
                ret: match ret {
 Some(v) => Some(v.model()),
 None => None,
 },
                body: match body {
 Some(v) => Some(v.model()),
 None => None,
 },
            },
            Object::Compound { line_info, field } => ObjectView::Compound {
                line_info: line_info@,
                field: field.model(),
            },
            Object::Typedef(x) => ObjectView::Typedef(x.model()),
            Object::Expr(x) => ObjectView::Expr(x.model()),
        }
    }
}

impl View for Object {
    type V = ObjectView;

    open spec fn view(&self) -> ObjectView {
        self.model()
    }
}

impl Field {
    /// The model.
    #[verifier::opaque]
    pub open spec fn model(self) -> FieldView
        decreases self,
    {
        match self {
            Field::Compound { line_info, token, fields } => FieldView::Compound {
                line_info: line_info@,
                token: token@,
                fields: field_models(fields@),
            },
            Field::Decl { name, taipe, eq_token, expr } => FieldView::Decl {
                name: name@,
                taipe: taipe.model(),
                eq_token: option_token_model(eq_token),
                expr: match expr {
 Some(v) => Some(v.model()),
 None => None,
 },
            },
        }
    }
}

impl View for Field {
    type V = FieldView;

    open spec fn view(&self) -> FieldView {
        self.model()
    }
}

impl Param {
    /// The model.
    #[verifier::opaque]
    pub open spec fn model(self) -> ParamView
        decreases self,
    {
        ParamView {
            name: self.name@,
            taipe: self.taipe.model(),
            eq_token: option_token_model(self.eq_token),
            expr: match self.expr {
 Some(v) => Some(v.model()),
 None => None,
 },
        }
    }
}

impl View for Param {
    type V = ParamView;

    open spec fn view(&self) -> ParamView {
        self.model()
    }
}

impl Stmt {
    /// The model.
    #[verifier::opaque]
    pub open spec fn model(self) -> StmtView
        decreases self,
    {
        match self {
            Stmt::If { line_info, expr, then_body, else_body } => StmtView::If {
                line_info: line_info@,
                expr: expr.model(),
                then_body: Box::new(then_body.model()),
                else_body: match else_body {
 Some(v) => Some(Box::new(v.model())),
 None => None,
 },
            },
            Stmt::While { line_info, label, expr, then_body } => StmtView::While {
                line_info: line_info@,
                label: option_token_model(label),
                expr: expr.model(),
                then_body: Box::new(then_body.model()),
            },
            Stmt::Block { line_info, stmts } => StmtView::Block {
                line_info: line_info@,
                stmts: stmt_models(stmts@),
            },
            Stmt::Yield { token, expr } => StmtView::Yield {
                token: token@,
                expr: expr.model(),
            },
            Stmt::Continue { token, label } => StmtView::Continue {
                token: token@,
                label: option_token_model(label),
            },
            Stmt::Break { token, label } => StmtView::Break {
                token: token@,
                label: option_token_model(label),
            },
            Stmt::Return { token, expr } => StmtView::Return {
                token: token@,
                expr: match expr {
 Some(v) => Some(v.model()),
 None => None,
 },
            },
            Stmt::Decl(x) => StmtView::Decl(Box::new(x.model())),
            Stmt::Expr(x) => StmtView::Expr(Box::new(x.model())),
            Stmt::Nop(x) => StmtView::Nop(x@),
        }
    }
}

impl View for Stmt {
    type V = StmtView;

    open spec fn view(&self) -> StmtView {
        self.model()
    }
}

impl Type {
    /// The model.
    #[verifier::opaque]
    pub open spec fn model(self) -> TypeView
        decreases self,
    {
        match self {
            Type::Path { items } => TypeView::Path {
                items: token_models(items@),
            },
            Type::Function { line_info, params, ret } => TypeView::Function {
                line_info: line_info@,
                params: type_models(params@),
                ret: Box::new(ret.model()),
            },
            Type::Const { token, taipe } => TypeView::Const {
                token: token@,
                taipe: Box::new(taipe.model()),
            },
            Type::Pointer { token, taipe } => TypeView::Pointer {
                token: token@,
                taipe: Box::new(taipe.model()),
            },
            Type::Array { line_info, taipe, expr } => TypeView::Array {
                line_info: line_info@,
                taipe: Box::new(taipe.model()),
                expr: match expr {
 Some(v) => Some(v.model()),
 None => None,
 },
            },
            Type::Fat { line_info, taipe } => TypeView::Fat {
                line_info: line_info@,
                taipe: Box::new(taipe.model()),
            },
            Type::Paren { line_info, taipe } => TypeView::Paren {
                line_info: line_info@,
                taipe: Box::new(taipe.model()),
            },
            Type::Tuple { line_info, types } => TypeView::Tuple {
                line_info: line_info@,
                types: type_models(types@),
            },
            Type::Literal(x) => TypeView::Literal(x@),
        }
    }
}

impl View for Type {
    type V = TypeView;

    open spec fn view(&self) -> TypeView {
        self.model()
    }
}

impl Arg {
    /// The model.
    #[verifier::opaque]
    pub open spec fn model(self) -> ArgView
        decreases self,
    {
        ArgView {
            name: option_token_model(self.name),
            expr: self.expr.model(),
        }
    }
}

impl View for Arg {
    type V = ArgView;

    open spec fn view(&self) -> ArgView {
        self.model()
    }
}

impl Expr {
    /// The model.
    #[verifier::opaque]
    pub open spec fn model(self) -> ExprView
        decreases self,
    {
        match self {
            Expr::Block { line_info, stmts } => ExprView::Block {
                line_info: line_info@,
                stmts: stmt_models(stmts@),
            },
            Expr::Assign { lhses, op, rhses } => ExprView::Assign {
                lhses: expr_models(lhses@),
                op: op@,
                rhses: expr_models(rhses@),
            },
            Expr::Binary { left, op, right } => ExprView::Binary {
                left: Box::new(left.model()),
                op: op@,
                right: Box::new(right.model()),
            },
            Expr::Cast { expr, taipe } => ExprView::Cast {
                expr: Box::new(expr.model()),
                taipe: Box::new(taipe.model()),
            },
            Expr::Unary { op, expr } => ExprView::Unary {
                op: op@,
                expr: Box::new(expr.model()),
            },
            Expr::Member { expr, name } => ExprView::Member {
                expr: Box::new(expr.model()),
                name: name@,
            },
            Expr::Call { line_info, expr, args } => ExprView::Call {
                line_info: line_info@,
                expr: Box::new(expr.model()),
                args: arg_models(args@),
            },
            Expr::Index { line_info, expr, items } => ExprView::Index {
                line_info: line_info@,
                expr: Box::new(expr.model()),
                items: expr_models(items@),
            },
            Expr::Literal(x) => ExprView::Literal(x@),
            Expr::Paren { line_info, expr } => ExprView::Paren {
                line_info: line_info@,
                expr: Box::new(expr.model()),
            },
            Expr::Tuple { line_info, exprs } => ExprView::Tuple {
                line_info: line_info@,
                exprs: expr_models(exprs@),
            },
            Expr::ArrayLit { line_info, items } => ExprView::ArrayLit {
                line_info: line_info@,
                items: expr_models(items@),
            },
            Expr::Compeval { line_info, trivial, expr } => ExprView::Compeval {
                line_info: line_info@,
                trivial: option_token_model(trivial),
                expr: Box::new(expr.model()),
            },
        }
    }
}

impl View for Expr {
    type V = ExprView;

    open spec fn view(&self) -> ExprView {
        self.model()
    }
}

/// The models of several items.
#[verifier::opaque]
pub open spec fn decl_models(items: Seq<Decl>) -> Seq<DeclView>
    decreases items,
{
    Seq::new(
        items.len(),
        |i: int|
            if 0 <= i < items.len() {
                items[i].model()
            } else {
                arbitrary()
            },
    )
}

/// The models of several items.
#[verifier::opaque]
pub open spec fn field_models(items: Seq<Field>) -> Seq<FieldView>
    decreases items,
{
    Seq::new(
        items.len(),
        |i: int|
            if 0 <= i < items.len() {
                items[i].model()
            } else {
                arbitrary()
            },
    )
}

/// The models of several items.
#[verifier::opaque]
pub open spec fn param_models(items: Seq<Param>) -> Seq<ParamView>
    decreases items,
{
    Seq::new(
        items.len(),
        |i: int|
            if 0 <= i < items.len() {
                items[i].model()
            } else {
                arbitrary()
            },
    )
}

/// The models of several items.
#[verifier::opaque]
pub open spec fn stmt_models(items: Seq<Stmt>) -> Seq<StmtView>
    decreases items,
{
    Seq::new(
        items.len(),
        |i: int|
            if 0 <= i < items.len() {
                items[i].model()
            } else {
                arbitrary()
            },
    )
}

/// The models of several items.
#[verifier::opaque]
pub open spec fn type_models(items: Seq<Type>) -> Seq<TypeView>
    decreases items,
{
    Seq::new(
        items.len(),
        |i: int|
            if 0 <= i < items.len() {
                items[i].model()
            } else {
                arbitrary()
            },
    )
}

/// The models of several items.
#[verifier::opaque]
pub open spec fn arg_models(items: Seq<Arg>) -> Seq<ArgView>
    decreases items,
{
    Seq::new(
        items.len(),
        |i: int|
            if 0 <= i < items.len() {
                items[i].model()
            } else {
                arbitrary()
            },
    )
}

/// The models of several items.
#[verifier::opaque]
pub open spec fn expr_models(items: Seq<Expr>) -> Seq<ExprView>
    decreases items,
{
    Seq::new(
        items.len(),
        |i: int|
            if 0 <= i < items.len() {
                items[i].model()
            } else {
                arbitrary()
            },
    )
}

/// There is one model for each item.
pub broadcast proof fn lemma_decl_models_len(items: Seq<Decl>)
    ensures
        (#[trigger] decl_models(items)).len() == items.len(),
{
    reveal(decl_models);
}

/// The models stand in the order of the items.
pub broadcast proof fn lemma_decl_models_index(items: Seq<Decl>, i: int)
    requires
        0 <= i < items.len(),
    ensures
        #[trigger] decl_models(items)[i] == items[i]@,
{
    reveal(decl_models);
    reveal(Decl::model);
}

/// There is one model for each item.
pub broadcast proof fn lemma_field_models_len(items: Seq<Field>)
    ensures
        (#[trigger] field_models(items)).len() == items.len(),
{
    reveal(field_models);
}

/// The models stand in the order of the items.
pub broadcast proof fn lemma_field_models_index(items: Seq<Field>, i: int)
    requires
        0 <= i < items.len(),
    ensures
        #[trigger] field_models(items)[i] == items[i]@,
{
    reveal(field_models);
    reveal(Field::model);
}

/// There is one model for each item.
pub broadcast proof fn lemma_param_models_len(items: Seq<Param>)
    ensures
        (#[trigger] param_models(items)).len() == items.len(),
{
    reveal(param_models);
}

/// The models stand in the order of the items.
pub broadcast proof fn lemma_param_models_index(items: Seq<Param>, i: int)
    requires
        0 <= i < items.len(),
    ensures
        #[trigger] param_models(items)[i] == items[i]@,
{
    reveal(param_models);
    reveal(Param::model);
}

/// There is one model for each item.
pub broadcast proof fn lemma_stmt_models_len(items: Seq<Stmt>)
    ensures
        (#[trigger] stmt_models(items)).len() == items.len(),
{
    reveal(stmt_models);
}

/// The models stand in the order of the items.
pub broadcast proof fn lemma_stmt_models_index(items: Seq<Stmt>, i: int)
    requires
        0 <= i < items.len(),
    ensures
        #[trigger] stmt_models(items)[i] == items[i]@,
{
    reveal(stmt_models);
    reveal(Stmt::model);
}

/// There is one model for each item.
pub broadcast proof fn lemma_type_models_len(items: Seq<Type>)
    ensures
        (#[trigger] type_models(items)).len() == items.len(),
{
    reveal(type_models);
}

/// The models stand in the order of the items.
pub broadcast proof fn lemma_type_models_index(items: Seq<Type>, i: int)
    requires
        0 <= i < items.len(),
    ensures
        #[trigger] type_models(items)[i] == items[i]@,
{
    reveal(type_models);
    reveal(Type::model);
}

/// There is one model for each item.
pub broadcast proof fn lemma_arg_models_len(items: Seq<Arg>)
    ensures
        (#[trigger] arg_models(items)).len() == items.len(),
{
    reveal(arg_models);
}

/// The models stand in the order of the items.
pub broadcast proof fn lemma_arg_models_index(items: Seq<Arg>, i: int)
    requires
        0 <= i < items.len(),
    ensures
        #[trigger] arg_models(items)[i] == items[i]@,
{
    reveal(arg_models);
    reveal(Arg::model);
}

/// There is one model for each item.
pub broadcast proof fn lemma_expr_models_len(items: Seq<Expr>)
    ensures
        (#[trigger] expr_models(items)).len() == items.len(),
{
    reveal(expr_models);
}

/// The models stand in the order of the items.
pub broadcast proof fn lemma_expr_models_index(items: Seq<Expr>, i: int)
    requires
        0 <= i < items.len(),
    ensures
        #[trigger] expr_models(items)[i] == items[i]@,
{
    reveal(expr_models);
    reveal(Expr::model);
}

/// What is known of the models of several items.
pub broadcast group group_models {
    lemma_decl_models_len,
    lemma_decl_models_index,
    lemma_field_models_len,
    lemma_field_models_index,
    lemma_param_models_len,
    lemma_param_models_index,
    lemma_stmt_models_len,
    lemma_stmt_models_index,
    lemma_type_models_len,
    lemma_type_models_index,
    lemma_arg_models_len,
    lemma_arg_models_index,
    lemma_expr_models_len,
    lemma_expr_models_index,
}

/// The model of a value that may be absent.
pub open spec fn option_model<T: View>(o: Option<T>) -> Option<T::V> {
    match o {
        Some(v) => Some(v@),
        None => None,
    }
}

impl Decl {
    pub(crate) fn make_decl(
        name: Token,
        taipe: Option<Type>,
        eq_token: Option<Token>,
        object: Option<Object>,
    ) -> (r: Decl)
        ensures
            r@ == (DeclView::Decl {
                name: name@,
                taipe: option_model(taipe),
                eq_token: option_token_model(eq_token),
                object: option_model(object),
            }),
    {
        proof {
            reveal(Decl::model);
            reveal(Type::model);
            reveal(Object::model);
        }
        Decl::Decl { name, taipe, eq_token, object }
    }

    pub(crate) fn make_using(line_info: LineInfo, items: Vec<Token>) -> (r: Decl)
        ensures
            r@ == (DeclView::Using {
                line_info: line_info@,
                items: token_models(items@),
            }),
    {
        proof {
            reveal(Decl::model);
        }
        Decl::Using { line_info, items }
    }
}

impl Object {
    pub(crate) fn make_extern_module(line_info: LineInfo, value: Token) -> (r: Object)
        ensures
            r@ == (ObjectView::ExternModule {
                line_info: line_info@,
                value: value@,
            }),
    {
        proof {
            reveal(Object::model);
        }
        Object::ExternModule { line_info, value }
    }

    pub(crate) fn make_module(line_info: LineInfo, decls: Vec<Decl>) -> (r: Object)
        ensures
            r@ == (ObjectView::Module {
                line_info: line_info@,
                decls: decl_models(decls@),
            }),
    {
        broadcast use group_models;

        proof {
            reveal(Object::model);
            reveal(decl_models);
        }
        Object::Module { line_info, decls }
    }

    pub(crate) fn make_fun(
        line_info: LineInfo,
        params: Vec<Param>,
        ret: Option<Type>,
        body: Option<Stmt>,
    ) -> (r: Object)
        ensures
            r@ == (ObjectView::Fun {
                line_info: line_info@,
                params: param_models(params@),
                ret: option_model(ret),
                body: option_model(body),
            }),
    {
        broadcast use group_models;

        proof {
            reveal(Object::model);
            reveal(param_models);
            reveal(Type::model);
            reveal(Stmt::model);
        }
        Object::Fun { line_info, params, ret, body }
    }

    pub(crate) fn make_compound(line_info: LineInfo, field: Field) -> (r: Object)
        ensures
            r@ == (ObjectView::Compound {
                line_info: line_info@,
                field: field@,
            }),
    {
        proof {
            reveal(Object::model);
            reveal(Field::model);
        }
        Object::Compound { line_info, field }
    }

    pub(crate) fn make_typedef(x: Type) -> (r: Object)
        ensures
            r@ == ObjectView::Typedef(x@),
    {
        proof {
            reveal(Object::model);
            reveal(Type::model);
        }
        Object::Typedef(x)
    }

    pub(crate) fn make_expr(x: Expr) -> (r: Object)
        ensures
            r@ == ObjectView::Expr(x@),
    {
        proof {
            reveal(Object::model);
            reveal(Expr::model);
        }
        Object::Expr(x)
    }
}

impl Field {
    pub(crate) fn make_compound(line_info: LineInfo, token: Token, fields: Vec<Field>) -> (r: Field)
        ensures
            r@ == (FieldView::Compound {
                line_info: line_info@,
                token: token@,
                fields: field_models(fields@),
            }),
    {
        broadcast use group_models;

        proof {
            reveal(Field::model);
            reveal(field_models);
        }
        Field::Compound { line_info, token, fields }
    }

    pub(crate) fn make_decl(
        name: Token,
        taipe: Type,
        eq_token: Option<Token>,
        expr: Option<Expr>,
    ) -> (r: Field)
        ensures
            r@ == (FieldView::Decl {
                name: name@,
                taipe: taipe@,
                eq_token: option_token_model(eq_token),
                expr: option_model(expr),
            }),
    {
        proof {
            reveal(Field::model);
            reveal(Type::model);
            reveal(Expr::model);
        }
        Field::Decl { name, taipe, eq_token, expr }
    }
}

impl Param {
    pub(crate) fn make(
        name: Token,
        taipe: Type,
        eq_token: Option<Token>,
        expr: Option<Expr>,
    ) -> (r: Param)
        ensures
            r@ == (ParamView {
                name: name@,
                taipe: taipe@,
                eq_token: option_token_model(eq_token),
                expr: option_model(expr),
            }),
    {
        proof {
            reveal(Param::model);
            reveal(Type::model);
            reveal(Expr::model);
        }
        Param { name, taipe, eq_token, expr }
    }
}

impl Stmt {
    pub(crate) fn make_if(
        line_info: LineInfo,
        expr: Expr,
        then_body: Stmt,
        else_body: Option<Stmt>,
    ) -> (r: Stmt)
        ensures
            r@ == (StmtView::If {
                line_info: line_info@,
                expr: expr@,
                then_body: Box::new(then_body@),
                else_body: match else_body {
 Some(v) => Some(Box::new(v@)),
 None => None,
 },
            }),
    {
        proof {
            reveal(Stmt::model);
            reveal(Expr::model);
        }
        Stmt::If { line_info, expr, then_body: Box::new(then_body), else_body: match else_body {
 Some(v) => Some(Box::new(v)),
 None => None,
 } }
    }

    pub(crate) fn make_while(
        line_info: LineInfo,
        label: Option<Token>,
        expr: Expr,
        then_body: Stmt,
    ) -> (r: Stmt)
        ensures
            r@ == (StmtView::While {
                line_info: line_info@,
                label: option_token_model(label),
                expr: expr@,
                then_body: Box::new(then_body@),
            }),
    {
        proof {
            reveal(Stmt::model);
            reveal(Expr::model);
        }
        Stmt::While { line_info, label, expr, then_body: Box::new(then_body) }
    }

    pub(crate) fn make_block(line_info: LineInfo, stmts: Vec<Stmt>) -> (r: Stmt)
        ensures
            r@ == (StmtView::Block {
                line_info: line_info@,
                stmts: stmt_models(stmts@),
            }),
    {
        broadcast use group_models;

        proof {
            reveal(Stmt::model);
            reveal(stmt_models);
        }
        Stmt::Block { line_info, stmts }
    }

    pub(crate) fn make_yield(token: Token, expr: Expr) -> (r: Stmt)
        ensures
            r@ == (StmtView::Yield {
                token: token@,
                expr: expr@,
            }),
    {
        proof {
            reveal(Stmt::model);
            reveal(Expr::model);
        }
        Stmt::Yield { token, expr }
    }

    pub(crate) fn make_continue(token: Token, label: Option<Token>) -> (r: Stmt)
        ensures
            r@ == (StmtView::Continue {
                token: token@,
                label: option_token_model(label),
            }),
    {
        proof {
            reveal(Stmt::model);
        }
        Stmt::Continue { token, label }
    }

    pub(crate) fn make_break(token: Token, label: Option<Token>) -> (r: Stmt)
        ensures
            r@ == (StmtView::Break {
                token: token@,
                label: option_token_model(label),
            }),
    {
        proof {
            reveal(Stmt::model);
        }
        Stmt::Break { token, label }
    }

    pub(crate) fn make_return(token: Token, expr: Option<Expr>) -> (r: Stmt)
        ensures
            r@ == (StmtView::Return {
                token: token@,
                expr: option_model(expr),
            }),
    {
        proof {
            reveal(Stmt::model);
            reveal(Expr::model);
        }
        Stmt::Return { token, expr }
    }

    pub(crate) fn make_decl(x: Decl) -> (r: Stmt)
        ensures
            r@ == StmtView::Decl(Box::new(x@)),
    {
        proof {
            reveal(Stmt::model);
            reveal(Decl::model);
        }
        Stmt::Decl(Box::new(x))
    }

    pub(crate) fn make_expr(x: Expr) -> (r: Stmt)
        ensures
            r@ == StmtView::Expr(Box::new(x@)),
    {
        proof {
            reveal(Stmt::model);
            reveal(Expr::model);
        }
        Stmt::Expr(Box::new(x))
    }

    pub(crate) fn make_nop(x: Token) -> (r: Stmt)
        ensures
            r@ == StmtView::Nop(x@),
    {
        proof {
            reveal(Stmt::model);
        }
        Stmt::Nop(x)
    }
}

impl Type {
    pub(crate) fn make_path(items: Vec<Token>) -> (r: Type)
        ensures
            r@ == (TypeView::Path {
                items: token_models(items@),
            }),
    {
        proof {
            reveal(Type::model);
        }
        Type::Path { items }
    }

    pub(crate) fn make_function(line_info: LineInfo, params: Vec<Type>, ret: Type) -> (r: Type)
        ensures
            r@ == (TypeView::Function {
                line_info: line_info@,
                params: type_models(params@),
                ret: Box::new(ret@),
            }),
    {
        broadcast use group_models;

        proof {
            reveal(Type::model);
            reveal(type_models);
        }
        Type::Function { line_info, params, ret: Box::new(ret) }
    }

    pub(crate) fn make_const(token: Token, taipe: Type) -> (r: Type)
        ensures
            r@ == (TypeView::Const {
                token: token@,
                taipe: Box::new(taipe@),
            }),
    {
        proof {
            reveal(Type::model);
        }
        Type::Const { token, taipe: Box::new(taipe) }
    }

    pub(crate) fn make_pointer(token: Token, taipe: Type) -> (r: Type)
        ensures
            r@ == (TypeView::Pointer {
                token: token@,
                taipe: Box::new(taipe@),
            }),
    {
        proof {
            reveal(Type::model);
        }
        Type::Pointer { token, taipe: Box::new(taipe) }
    }

    pub(crate) fn make_array(line_info: LineInfo, taipe: Type, expr: Option<Expr>) -> (r: Type)
        ensures
            r@ == (TypeView::Array {
                line_info: line_info@,
                taipe: Box::new(taipe@),
                expr: option_model(expr),
            }),
    {
        proof {
            reveal(Type::model);
            reveal(Expr::model);
        }
        Type::Array { line_info, taipe: Box::new(taipe), expr }
    }

    pub(crate) fn make_fat(line_info: LineInfo, taipe: Type) -> (r: Type)
        ensures
            r@ == (TypeView::Fat {
                line_info: line_info@,
                taipe: Box::new(taipe@),
            }),
    {
        proof {
            reveal(Type::model);
        }
        Type::Fat { line_info, taipe: Box::new(taipe) }
    }

    pub(crate) fn make_paren(line_info: LineInfo, taipe: Type) -> (r: Type)
        ensures
            r@ == (TypeView::Paren {
                line_info: line_info@,
                taipe: Box::new(taipe@),
            }),
    {
        proof {
            reveal(Type::model);
        }
        Type::Paren { line_info, taipe: Box::new(taipe) }
    }

    pub(crate) fn make_tuple(line_info: LineInfo, types: Vec<Type>) -> (r: Type)
        ensures
            r@ == (TypeView::Tuple {
                line_info: line_info@,
                types: type_models(types@),
            }),
    {
        broadcast use group_models;

        proof {
            reveal(Type::model);
            reveal(type_models);
        }
        Type::Tuple { line_info, types }
    }

    pub(crate) fn make_literal(x: Token) -> (r: Type)
        ensures
            r@ == TypeView::Literal(x@),
    {
        proof {
            reveal(Type::model);
        }
        Type::Literal(x)
    }
}

impl Arg {
    pub(crate) fn make(name: Option<Token>, expr: Expr) -> (r: Arg)
        ensures
            r@ == (ArgView {
                name: option_token_model(name),
                expr: expr@,
            }),
    {
        proof {
            reveal(Arg::model);
            reveal(Expr::model);
        }
        Arg { name, expr }
    }
}

impl Expr {
    pub(crate) fn make_block(line_info: LineInfo, stmts: Vec<Stmt>) -> (r: Expr)
        ensures
            r@ == (ExprView::Block {
                line_info: line_info@,
                stmts: stmt_models(stmts@),
            }),
            r@.has_span(),
    {
        broadcast use group_models;

        proof {
            reveal(Expr::model);
            reveal(ExprView::has_span);
            reveal(stmt_models);
        }
        Expr::Block { line_info, stmts }
    }

    pub(crate) fn make_assign(lhses: Vec<Expr>, op: Token, rhses: Vec<Expr>) -> (r: Expr)
        ensures
            r@ == (ExprView::Assign {
                lhses: expr_models(lhses@),
                op: op@,
                rhses: expr_models(rhses@),
            }),
            r@.has_span() == (
                lhses@.len() > 0
                    && rhses@.len() > 0
                    && lhses@[0]@.has_span()
                    && rhses@[rhses@.len() - 1]@.has_span()
            ),
    {
        broadcast use group_models;

        proof {
            reveal(Expr::model);
            reveal(ExprView::has_span);
            reveal(expr_models);
            assert(expr_models(lhses@).len() == lhses@.len());
            assert(expr_models(rhses@).len() == rhses@.len());
        }
        Expr::Assign { lhses, op, rhses }
    }

    pub(crate) fn make_binary(left: Expr, op: Token, right: Expr) -> (r: Expr)
        ensures
            r@ == (ExprView::Binary {
                left: Box::new(left@),
                op: op@,
                right: Box::new(right@),
            }),
            r@.has_span() == (left@.has_span() && right@.has_span()),
    {
        proof {
            reveal(Expr::model);
            reveal(ExprView::has_span);
        }
        Expr::Binary { left: Box::new(left), op, right: Box::new(right) }
    }

    pub(crate) fn make_cast(expr: Expr, taipe: Type) -> (r: Expr)
        ensures
            r@ == (ExprView::Cast {
                expr: Box::new(expr@),
                taipe: Box::new(taipe@),
            }),
            r@.has_span() == (expr@.has_span() && taipe@.has_span()),
    {
        proof {
            reveal(Expr::model);
            reveal(ExprView::has_span);
            reveal(Type::model);
        }
        Expr::Cast { expr: Box::new(expr), taipe: Box::new(taipe) }
    }

    pub(crate) fn make_unary(op: Token, expr: Expr) -> (r: Expr)
        ensures
            r@ == (ExprView::Unary {
                op: op@,
                expr: Box::new(expr@),
            }),
            r@.has_span() == (expr@.has_span()),
    {
        proof {
            reveal(Expr::model);
            reveal(ExprView::has_span);
        }
        Expr::Unary { op, expr: Box::new(expr) }
    }

    pub(crate) fn make_member(expr: Expr, name: Token) -> (r: Expr)
        ensures
            r@ == (ExprView::Member {
                expr: Box::new(expr@),
                name: name@,
            }),
            r@.has_span() == (expr@.has_span()),
    {
        proof {
            reveal(Expr::model);
            reveal(ExprView::has_span);
        }
        Expr::Member { expr: Box::new(expr), name }
    }

    pub(crate) fn make_call(line_info: LineInfo, expr: Expr, args: Vec<Arg>) -> (r: Expr)
        ensures
            r@ == (ExprView::Call {
                line_info: line_info@,
                expr: Box::new(expr@),
                args: arg_models(args@),
            }),
            r@.has_span(),
    {
        broadcast use group_models;

        proof {
            reveal(Expr::model);
            reveal(ExprView::has_span);
            reveal(arg_models);
        }
        Expr::Call { line_info, expr: Box::new(expr), args }
    }

    pub(crate) fn make_index(line_info: LineInfo, expr: Expr, items: Vec<Expr>) -> (r: Expr)
        ensures
            r@ == (ExprView::Index {
                line_info: line_info@,
                expr: Box::new(expr@),
                items: expr_models(items@),
            }),
            r@.has_span(),
    {
        broadcast use group_models;

        proof {
            reveal(Expr::model);
            reveal(ExprView::has_span);
            reveal(expr_models);
        }
        Expr::Index { line_info, expr: Box::new(expr), items }
    }

    pub(crate) fn make_literal(x: Token) -> (r: Expr)
        ensures
            r@ == ExprView::Literal(x@),
            r@.has_span(),
    {
        proof {
            reveal(Expr::model);
            reveal(ExprView::has_span);
        }
        Expr::Literal(x)
    }

    pub(crate) fn make_paren(line_info: LineInfo, expr: Expr) -> (r: Expr)
        ensures
            r@ == (ExprView::Paren {
                line_info: line_info@,
                expr: Box::new(expr@),
            }),
            r@.has_span(),
    {
        proof {
            reveal(Expr::model);
            reveal(ExprView::has_span);
        }
        Expr::Paren { line_info, expr: Box::new(expr) }
    }

    pub(crate) fn make_tuple(line_info: LineInfo, exprs: Vec<Expr>) -> (r: Expr)
        ensures
            r@ == (ExprView::Tuple {
                line_info: line_info@,
                exprs: expr_models(exprs@),
            }),
            r@.has_span(),
    {
        broadcast use group_models;

        proof {
            reveal(Expr::model);
            reveal(ExprView::has_span);
            reveal(expr_models);
        }
        Expr::Tuple { line_info, exprs }
    }

    pub(crate) fn make_array_lit(line_info: LineInfo, items: Vec<Expr>) -> (r: Expr)
        ensures
            r@ == (ExprView::ArrayLit {
                line_info: line_info@,
                items: expr_models(items@),
            }),
            r@.has_span(),
    {
        broadcast use group_models;

        proof {
            reveal(Expr::model);
            reveal(ExprView::has_span);
            reveal(expr_models);
        }
        Expr::ArrayLit { line_info, items }
    }
}

impl TypeView {
    /// Whether the type occupies a region: a path has at least one name.
    pub open spec fn has_span(self) -> bool
        decreases self,
    {
        match self {
            TypeView::Path { items } => items.len() > 0,
            TypeView::Const { token, taipe } => taipe.has_span(),
            TypeView::Pointer { token, taipe } => taipe.has_span(),
            _ => true,
        }
    }

    /// The region of the type.
    pub open spec fn span(self) -> Span
        decreases self,
    {
        match self {
            TypeView::Path { items } => span_from(items.first().line_info, items.last().line_info),
            TypeView::Function { line_info, params, ret } => line_info,
            TypeView::Const { token, taipe } => span_from(token.line_info, taipe.span()),
            TypeView::Pointer { token, taipe } => span_from(token.line_info, taipe.span()),
            TypeView::Array { line_info, taipe, expr } => line_info,
            TypeView::Fat { line_info, taipe } => line_info,
            TypeView::Paren { line_info, taipe } => line_info,
            TypeView::Tuple { line_info, types } => line_info,
            TypeView::Literal(token) => token.line_info,
        }
    }

    /// The region, where there is one.
    pub open spec fn line(self) -> Result<Span, StopView> {
        line_or_stop(self.has_span(), self.span())
    }
}

impl ExprView {
    /// Whether the expression occupies a region: an assignment has both its sides.
    #[verifier::opaque]
    pub open spec fn has_span(self) -> bool
        decreases self,
    {
        match self {
            ExprView::Assign { lhses, op, rhses } => lhses.len() > 0 && rhses.len() > 0
                && lhses[0].has_span() && rhses[rhses.len() - 1].has_span(),
            ExprView::Binary { left, op, right } => left.has_span() && right.has_span(),
            ExprView::Cast { expr, taipe } => expr.has_span() && taipe.has_span(),
            ExprView::Unary { op, expr } => expr.has_span(),
            ExprView::Member { expr, name } => expr.has_span(),
            _ => true,
        }
    }

    /// The region of the expression.
    #[verifier::opaque]
    pub open spec fn span(self) -> Span
        decreases self,
    {
        match self {
            ExprView::Block { line_info, stmts } => line_info,
            ExprView::Assign { lhses, op, rhses } => if lhses.len() > 0 && rhses.len() > 0 {
                span_from(lhses[0].span(), rhses[rhses.len() - 1].span())
            } else {
                op.line_info
            },
            ExprView::Binary { left, op, right } => span_from(left.span(), right.span()),
            ExprView::Cast { expr, taipe } => span_from(expr.span(), taipe.span()),
            ExprView::Unary { op, expr } => span_from(op.line_info, expr.span()),
            ExprView::Member { expr, name } => span_from(expr.span(), name.line_info),
            ExprView::Call { line_info, expr, args } => line_info,
            ExprView::Index { line_info, expr, items } => line_info,
            ExprView::Literal(token) => token.line_info,
            ExprView::Paren { line_info, expr } => line_info,
            ExprView::Tuple { line_info, exprs } => line_info,
            ExprView::ArrayLit { line_info, items } => line_info,
            ExprView::Compeval { line_info, trivial, expr } => line_info,
        }
    }

    /// The region, where there is one.
    pub open spec fn line(self) -> Result<Span, StopView> {
        line_or_stop(self.has_span(), self.span())
    }
}

impl ArgView {
    /// Whether the argument occupies a region.
    pub open spec fn has_span(self) -> bool {
        self.expr.has_span()
    }

    /// The region of the argument.
    pub open spec fn span(self) -> Span {
        match self.name {
            Some(name) => span_from(name.line_info, self.expr.span()),
            None => self.expr.span(),
        }
    }

    /// The region, where there is one.
    pub open spec fn line(self) -> Result<Span, StopView> {
        line_or_stop(self.has_span(), self.span())
    }
}

impl ObjectView {
    /// Whether the object occupies a region.
    pub open spec fn has_span(self) -> bool {
        match self {
            ObjectView::Typedef(taipe) => taipe.has_span(),
            ObjectView::Expr(expr) => expr.has_span(),
            _ => true,
        }
    }

    /// The region of the object.
    pub open spec fn span(self) -> Span {
        match self {
            ObjectView::ExternModule { line_info, value } => line_info,
            ObjectView::Module { line_info, decls } => line_info,
            ObjectView::Fun { line_info, params, ret, body } => line_info,
            ObjectView::Compound { line_info, field } => line_info,
            ObjectView::Typedef(taipe) => taipe.span(),
            ObjectView::Expr(expr) => expr.span(),
        }
    }

    /// Whether the object is a module.
    pub open spec fn is_module(self) -> bool {
        self is ExternModule || self is Module
    }
}

impl DeclView {
    /// Whether the declaration occupies a region.
    pub open spec fn has_span(self) -> bool {
        match self {
            DeclView::Decl { name, taipe, eq_token, object } => match (object, taipe) {
                (Some(object), _) => object.has_span(),
                (None, Some(taipe)) => taipe.has_span(),
                (None, None) => true,
            },
            _ => true,
        }
    }

    /// The region of the declaration.
    pub open spec fn span(self) -> Span {
        match self {
            DeclView::Decl { name, taipe, eq_token, object } => match (object, taipe) {
                (Some(object), _) => span_from(name.line_info, object.span()),
                (None, Some(taipe)) => span_from(name.line_info, taipe.span()),
                (None, None) => name.line_info,
            },
            DeclView::DeclWithDirective { name, taipe, eq_token, directive } => span_from(
                name.line_info,
                directive.line_info,
            ),
            DeclView::Using { line_info, items } => line_info,
        }
    }

    /// The region, where there is one.
    pub open spec fn line(self) -> Result<Span, StopView> {
        line_or_stop(self.has_span(), self.span())
    }
}

impl FieldView {
    /// Whether the field occupies a region.
    pub open spec fn has_span(self) -> bool {
        match self {
            FieldView::Compound { line_info, token, fields } => true,
            FieldView::Decl { name, taipe, eq_token, expr } => match expr {
                Some(expr) => expr.has_span(),
                None => taipe.has_span(),
            },
        }
    }

    /// The region of the field.
    pub open spec fn span(self) -> Span {
        match self {
            FieldView::Compound { line_info, token, fields } => line_info,
            FieldView::Decl { name, taipe, eq_token, expr } => match expr {
                Some(expr) => span_from(name.line_info, expr.span()),
                None => span_from(name.line_info, taipe.span()),
            },
        }
    }

    /// The region, where there is one.
    pub open spec fn line(self) -> Result<Span, StopView> {
        line_or_stop(self.has_span(), self.span())
    }
}

impl ParamView {
    /// Whether the parameter occupies a region.
    pub open spec fn has_span(self) -> bool {
        match self.expr {
            Some(expr) => expr.has_span(),
            None => self.taipe.has_span(),
        }
    }

    /// The region of the parameter.
    pub open spec fn span(self) -> Span {
        match self.expr {
            Some(expr) => span_from(self.name.line_info, expr.span()),
            None => span_from(self.name.line_info, self.taipe.span()),
        }
    }

    /// The region, where there is one.
    pub open spec fn line(self) -> Result<Span, StopView> {
        line_or_stop(self.has_span(), self.span())
    }
}

impl StmtView {
    /// Whether the statement occupies a region.
    pub open spec fn has_span(self) -> bool {
        match self {
            StmtView::Yield { token, expr } => expr.has_span(),
            StmtView::Return { token, expr } => match expr {
                Some(e) => e.has_span(),
                None => true,
            },
            StmtView::Decl(decl) => decl.has_span(),
            StmtView::Expr(expr) => expr.has_span(),
            _ => true,
        }
    }

    /// The region of the statement.
    pub open spec fn span(self) -> Span {
        match self {
            StmtView::If { line_info, expr, then_body, else_body } => line_info,
            StmtView::While { line_info, label, expr, then_body } => line_info,
            StmtView::Block { line_info, stmts } => line_info,
            StmtView::Yield { token, expr } => span_from(token.line_info, expr.span()),
            StmtView::Continue { token, label } => match label {
                Some(l) => span_from(token.line_info, l.line_info),
                None => token.line_info,
            },
            StmtView::Break { token, label } => match label {
                Some(l) => span_from(token.line_info, l.line_info),
                None => token.line_info,
            },
            StmtView::Return { token, expr } => match expr {
                Some(e) => span_from(token.line_info, e.span()),
                None => token.line_info,
            },
            StmtView::Decl(decl) => decl.span(),
            StmtView::Expr(expr) => expr.span(),
            StmtView::Nop(token) => token.line_info,
        }
    }

    /// The region, where there is one.
    pub open spec fn line(self) -> Result<Span, StopView> {
        line_or_stop(self.has_span(), self.span())
    }
}

impl Type {
    fn line_info(&self) -> (r: LineInfo)
        requires
            self@.has_span(),
        ensures
            r@ == self@.span(),
        decreases self,
    {
        proof {
            reveal(Type::model);
        }
        match self {
            Type::Path { items } => items.get_line_info(),
            Type::Function { line_info, .. } => *line_info,
            Type::Const { token, taipe } => {
                let end: LineInfo = taipe.line_info();
                LineInfo::from_range(token, &end)
            },
            Type::Pointer { token, taipe } => {
                let end: LineInfo = taipe.line_info();
                LineInfo::from_range(token, &end)
            },
            Type::Array { line_info, .. } => *line_info,
            Type::Fat { line_info, .. } => *line_info,
            Type::Paren { line_info, .. } => *line_info,
            Type::Tuple { line_info, .. } => *line_info,
            Type::Literal(token) => token.get_line_info(),
        }
    }
}

impl Type {
    fn is_placed(&self) -> (r: bool)
        ensures
            r == self@.has_span(),
        decreases self,
    {
        proof {
            reveal(Type::model);
        }
        match self {
            Type::Path { items } => {
                assert(token_models(items@).len() == items@.len());
                items.len() > 0
            },
            Type::Const { token: _, taipe } => taipe.is_placed(),
            Type::Pointer { token: _, taipe } => taipe.is_placed(),
            _ => true,
        }
    }
}

impl Expr {
    fn is_placed(&self) -> (r: bool)
        ensures
            r == self@.has_span(),
        decreases self,
    {
        broadcast use group_models;

        proof {
            reveal(Expr::model);
            reveal(Type::model);
            reveal(expr_models);
            reveal(ExprView::has_span);
        }
        match self {
            Expr::Assign { lhses, op: _, rhses } => {
                assert(expr_models(lhses@).len() == lhses@.len());
                assert(expr_models(rhses@).len() == rhses@.len());
                lhses.len() > 0 && rhses.len() > 0 && lhses[0].is_placed() && rhses[rhses.len()
                    - 1].is_placed()
            },
            Expr::Binary { left, op: _, right } => left.is_placed() && right.is_placed(),
            Expr::Cast { expr, taipe } => expr.is_placed() && taipe.is_placed(),
            Expr::Unary { op: _, expr } => expr.is_placed(),
            Expr::Member { expr, name: _ } => expr.is_placed(),
            _ => true,
        }
    }

    fn line_info(&self) -> (r: LineInfo)
        requires
            self@.has_span(),
        ensures
            r@ == self@.span(),
        decreases self,
    {
        broadcast use group_models;

        proof {
            reveal(Expr::model);
            reveal(Type::model);
            reveal(expr_models);
            reveal(ExprView::has_span);
            reveal(ExprView::span);
        }
        match self {
            Expr::Block { line_info, .. } => *line_info,
            Expr::Assign { lhses, op: _, rhses } => {
                assert(expr_models(lhses@).len() == lhses@.len());
                assert(expr_models(rhses@).len() == rhses@.len());
                let start: LineInfo = lhses[0].line_info();
                let end: LineInfo = rhses[rhses.len() - 1].line_info();
                LineInfo::from_range(&start, &end)
            },
            Expr::Binary { left, op: _, right } => {
                let start: LineInfo = left.line_info();
                let end: LineInfo = right.line_info();
                LineInfo::from_range(&start, &end)
            },
            Expr::Cast { expr, taipe } => {
                let start: LineInfo = expr.line_info();
                let end: LineInfo = taipe.line_info();
                LineInfo::from_range(&start, &end)
            },
            Expr::Unary { op, expr } => {
                let end: LineInfo = expr.line_info();
                LineInfo::from_range(op, &end)
            },
            Expr::Member { expr, name } => {
                let start: LineInfo = expr.line_info();
                LineInfo::from_range(&start, name)
            },
            Expr::Call { line_info, .. } => *line_info,
            Expr::Index { line_info, .. } => *line_info,
            Expr::Literal(token) => token.get_line_info(),
            Expr::Paren { line_info, .. } => *line_info,
            Expr::Tuple { line_info, .. } => *line_info,
            Expr::ArrayLit { line_info, .. } => *line_info,
            Expr::Compeval { line_info, .. } => *line_info,
        }
    }
}

impl Object {
    /// Whether the object is a module.
    pub fn is_module(&self) -> (r: bool)
        ensures
            r == self@.is_module(),
    {
        proof {
            reveal(Object::model);
        }
        match self {
            Object::ExternModule { .. } => true,
            Object::Module { .. } => true,
            _ => false,
        }
    }
}

impl HasLineInfo for Type {
    open spec fn has_span(&self) -> bool {
        self@.has_span()
    }

    open spec fn span(&self) -> Span {
        self@.span()
    }

    fn get_line_info(&self) -> (r: LineInfo) {
        self.line_info()
    }

    fn has_line_info(&self) -> (r: bool) {
        self.is_placed()
    }
}

impl HasLineInfo for Expr {
    open spec fn has_span(&self) -> bool {
        self@.has_span()
    }

    open spec fn span(&self) -> Span {
        self@.span()
    }

    fn get_line_info(&self) -> (r: LineInfo) {
        self.line_info()
    }

    fn has_line_info(&self) -> (r: bool) {
        self.is_placed()
    }
}

impl HasLineInfo for Arg {
    open spec fn has_span(&self) -> bool {
        self@.has_span()
    }

    open spec fn span(&self) -> Span {
        self@.span()
    }

    fn get_line_info(&self) -> (r: LineInfo) {
        proof {
            reveal(Arg::model);
            reveal(Expr::model);
        }
        match &self.name {
            Some(name) => LineInfo::from_range(name, &self.expr),
            None => self.expr.get_line_info(),
        }
    }

    fn has_line_info(&self) -> (r: bool) {
        proof {
            reveal(Arg::model);
            reveal(Expr::model);
        }
        self.expr.is_placed()
    }
}

impl HasLineInfo for Object {
    open spec fn has_span(&self) -> bool {
        self@.has_span()
    }

    open spec fn span(&self) -> Span {
        self@.span()
    }

    fn get_line_info(&self) -> (r: LineInfo) {
        proof {
            reveal(Object::model);
            reveal(Type::model);
            reveal(Expr::model);
        }
        match self {
            Object::ExternModule { line_info, .. } => *line_info,
            Object::Module { line_info, .. } => *line_info,
            Object::Fun { line_info, .. } => *line_info,
            Object::Compound { line_info, .. } => *line_info,
            Object::Typedef(taipe) => taipe.get_line_info(),
            Object::Expr(expr) => expr.get_line_info(),
        }
    }

    fn has_line_info(&self) -> (r: bool) {
        proof {
            reveal(Object::model);
            reveal(Type::model);
            reveal(Expr::model);
        }
        match self {
            Object::Typedef(taipe) => taipe.is_placed(),
            Object::Expr(expr) => expr.is_placed(),
            _ => true,
        }
    }
}

impl HasLineInfo for Decl {
    open spec fn has_span(&self) -> bool {
        self@.has_span()
    }

    open spec fn span(&self) -> Span {
        self@.span()
    }

    fn get_line_info(&self) -> (r: LineInfo) {
        proof {
            reveal(Decl::model);
            reveal(Type::model);
            reveal(Object::model);
        }
        match self {
            Decl::Decl { name, taipe, eq_token: _, object } => {
                if let Some(obj) = object {
                    LineInfo::from_range(name, obj)
                } else if let Some(t) = taipe {
                    LineInfo::from_range(name, t)
                } else {
                    name.get_line_info()
                }
            },
            Decl::DeclWithDirective { name, taipe: _, eq_token: _, directive } => {
                LineInfo::from_range(name, directive)
            },
            Decl::Using { line_info, items: _ } => *line_info,
        }
    }

    fn has_line_info(&self) -> (r: bool) {
        proof {
            reveal(Decl::model);
            reveal(Type::model);
            reveal(Object::model);
        }
        match self {
            Decl::Decl { name: _, taipe, eq_token: _, object } => {
                if let Some(obj) = object {
                    obj.has_line_info()
                } else if let Some(t) = taipe {
                    t.is_placed()
                } else {
                    true
                }
            },
            _ => true,
        }
    }
}

impl HasLineInfo for Field {
    open spec fn has_span(&self) -> bool {
        self@.has_span()
    }

    open spec fn span(&self) -> Span {
        self@.span()
    }

    fn get_line_info(&self) -> (r: LineInfo) {
        proof {
            reveal(Field::model);
            reveal(Type::model);
            reveal(Expr::model);
        }
        match self {
            Field::Compound { line_info, .. } => *line_info,
            Field::Decl { name, taipe, eq_token: _, expr } => {
                if let Some(expr) = expr {
                    LineInfo::from_range(name, expr)
                } else {
                    LineInfo::from_range(name, taipe)
                }
            },
        }
    }

    fn has_line_info(&self) -> (r: bool) {
        proof {
            reveal(Field::model);
            reveal(Type::model);
            reveal(Expr::model);
        }
        match self {
            Field::Compound { .. } => true,
            Field::Decl { name: _, taipe, eq_token: _, expr } => {
                if let Some(expr) = expr {
                    expr.is_placed()
                } else {
                    taipe.is_placed()
                }
            },
        }
    }
}

impl HasLineInfo for Param {
    open spec fn has_span(&self) -> bool {
        self@.has_span()
    }

    open spec fn span(&self) -> Span {
        self@.span()
    }

    fn get_line_info(&self) -> (r: LineInfo) {
        proof {
            reveal(Param::model);
            reveal(Type::model);
            reveal(Expr::model);
        }
        if let Some(expr) = &self.expr {
            LineInfo::from_range(&self.name, expr)
        } else {
            LineInfo::from_range(&self.name, &self.taipe)
        }
    }

    fn has_line_info(&self) -> (r: bool) {
        proof {
            reveal(Param::model);
            reveal(Type::model);
            reveal(Expr::model);
        }
        if let Some(expr) = &self.expr {
            expr.is_placed()
        } else {
            self.taipe.is_placed()
        }
    }
}

impl HasLineInfo for Stmt {
    open spec fn has_span(&self) -> bool {
        self@.has_span()
    }

    open spec fn span(&self) -> Span {
        self@.span()
    }

    fn get_line_info(&self) -> (r: LineInfo) {
        proof {
            reveal(Stmt::model);
            reveal(Expr::model);
            reveal(Decl::model);
        }
        match self {
            Stmt::If { line_info, .. } => *line_info,
            Stmt::While { line_info, .. } => *line_info,
            Stmt::Block { line_info, .. } => *line_info,
            Stmt::Yield { token, expr } => LineInfo::from_range(token, expr),
            Stmt::Continue { token, label } => {
                if let Some(l) = label {
                    LineInfo::from_range(token, l)
                } else {
                    token.get_line_info()
                }
            },
            Stmt::Break { token, label } => {
                if let Some(l) = label {
                    LineInfo::from_range(token, l)
                } else {
                    token.get_line_info()
                }
            },
            Stmt::Return { token, expr } => {
                if let Some(e) = expr {
                    LineInfo::from_range(token, e)
                } else {
                    token.get_line_info()
                }
            },
            Stmt::Decl(decl) => decl.get_line_info(),
            Stmt::Expr(expr) => expr.get_line_info(),
            Stmt::Nop(token) => token.get_line_info(),
        }
    }

    fn has_line_info(&self) -> (r: bool) {
        proof {
            reveal(Stmt::model);
            reveal(Expr::model);
            reveal(Decl::model);
        }
        match self {
            Stmt::Yield { token: _, expr } => expr.is_placed(),
            Stmt::Return { token: _, expr } => {
                if let Some(e) = expr {
                    e.is_placed()
                } else {
                    true
                }
            },
            Stmt::Decl(decl) => decl.has_line_info(),
            Stmt::Expr(expr) => expr.is_placed(),
            _ => true,
        }
    }
}

/// The parts of the model of a parameter.
pub proof fn lemma_param_model(param: Param)
    ensures
        param@.name == param.name@,
        param@.taipe == param.taipe@,
        param@.eq_token == option_token_model(param.eq_token),
        param@.expr == option_model(param.expr),
{
    reveal(Param::model);
    reveal(Type::model);
    reveal(Expr::model);
}

/// The parts of the model of an argument.
pub proof fn lemma_arg_model(arg: Arg)
    ensures
        arg@.name == option_token_model(arg.name),
        arg@.expr == arg.expr@,
{
    reveal(Arg::model);
    reveal(Expr::model);
}

} // verus!
