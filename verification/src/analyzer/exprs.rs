use vstd::prelude::*;

use crate::ast;
use crate::analyzer::{group_analyzer, lemma_begin, Analyzer, AnalyzerView};
use crate::analyzer::names::{names_after, with_names};
use crate::ast::{arg_models, expr_models, Arg, ArgView, Expr, ExprView};
use crate::bigint::Int;
use crate::cfg::{ControlInfo, ControlInfoView, ControlNode, ControlNodeView};
use crate::common::{
    get_plural, line_of, option_view, outcome, plural_of, span_from, texts, CompileError,
    ErrorView, LineInfo, Span, Stop, StopView,
};
use crate::context::{
    context_models, nth_type, type_at, type_models, value_models, Context, ContextView, Float,
    FloatView, Imm, ImmView, IntKind, Type, TypeView, Value, ValueView,
};
use crate::scope::{
    FunctionInfo, FunctionInfoView, ParamInfo, ParamInfoView, Payload, PayloadView, ScopeId,
    ScopeIdView, ScopeKind,
};
use crate::table::{entered, set_names, views, with_entry, Table, TableView};
use crate::text::{
    decimal, join2, lemma_decimal_digits, length_decimal, length_text, size_decimal, size_text,
    to_chars,
};
use crate::token::{
    kind_repr, Token, TokenKind, TokenSuffix, TokenValue, TokenValueView, TokenView,
};

verus! {

/// An argument without a name.
pub struct ArgInfo {
    pub ctx: Context,
    pub line: LineInfo,
}

/// The model of an argument without a name.
pub struct ArgInfoView {
    pub ctx: ContextView,
    pub line: Span,
}

impl View for ArgInfo {
    type V = ArgInfoView;

    open spec fn view(&self) -> ArgInfoView {
        ArgInfoView { ctx: self.ctx@, line: self.line@ }
    }
}

/// An argument with a name.
pub struct NamedArg {
    pub ctx: Context,
    pub line: LineInfo,
    pub expr_line: LineInfo,
}

/// The model of an argument with a name.
pub struct NamedArgView {
    pub ctx: ContextView,
    pub line: Span,
    pub expr_line: Span,
}

impl View for NamedArg {
    type V = NamedArgView;

    open spec fn view(&self) -> NamedArgView {
        NamedArgView { ctx: self.ctx@, line: self.line@, expr_line: self.expr_line@ }
    }
}

/// The arguments of a call.
pub struct Args {
    pub pos: Vec<ArgInfo>,
    pub named: Table<NamedArg>,
}

/// The model of the arguments of a call.
pub struct ArgsView {
    pub pos: Seq<ArgInfoView>,
    pub named: TableView<NamedArgView>,
}

impl View for Args {
    type V = ArgsView;

    open spec fn view(&self) -> ArgsView {
        ArgsView { pos: views(self.pos@), named: self.named@ }
    }
}

/// How many arguments there are.
pub open spec fn total_args(args: ArgsView) -> Option<usize> {
    if args.pos.len() + args.named.values.len() <= usize::MAX {
        Some((args.pos.len() + args.named.values.len()) as usize)
    } else {
        None
    }
}

/// How many arguments there are.
fn arg_count(args: &Args) -> (r: Option<usize>)
    ensures
        r == total_args(args@),
{
    args.pos.len().checked_add(args.named.values.len())
}

/// The name and the value at a position of a table, if there are.
pub open spec fn nth_entry(
    table: TableView<ScopeIdView>,
    i: int,
) -> Option<(Seq<char>, ScopeIdView)> {
    if 0 <= i < table.names.len() && i < table.values.len() {
        Some((table.names[i], table.values[i]))
    } else {
        None
    }
}

/// The name and the value at a position of a table, if there are.
fn entry_at(table: &Table<ScopeId>, i: usize) -> (r: Option<(String, ScopeId)>)
    ensures
        option_view(r) == nth_entry(table@, i as int),
{
    match table.name_at(i) {
        Some(name) => if i < table.values.len() {
            Some((name.clone(), table.values[i].copy()))
        } else {
            None
        },
        None => None,
    }
}

/// The name and the argument at a position of a table, if there are.
pub open spec fn nth_named(table: TableView<NamedArgView>, i: int) -> Option<
    (Seq<char>, NamedArgView),
> {
    if 0 <= i < table.names.len() && i < table.values.len() {
        Some((table.names[i], table.values[i]))
    } else {
        None
    }
}

/// The name and the argument at a position of a table, if there are.
fn named_at(table: &Table<NamedArg>, i: usize) -> (r: Option<(String, NamedArg)>)
    ensures
        option_view(r) == nth_named(table@, i as int),
{
    match table.name_at(i) {
        Some(name) => if i < table.values.len() {
            let arg: NamedArg = NamedArg {
                ctx: table.values[i].ctx.copy(),
                line: table.values[i].line,
                expr_line: table.values[i].expr_line,
            };
            assert(table@.values[i as int] == table.values@[i as int]@);
            Some((name.clone(), arg))
        } else {
            None
        },
        None => None,
    }
}

/// The context of an argument.
pub open spec fn arg_context(arg: ArgInfoView) -> ContextView {
    arg.ctx
}

/// The contexts of arguments.
pub open spec fn only_contexts(table: TableView<ArgInfoView>) -> TableView<ContextView> {
    TableView {
        names: table.names,
        values: Seq::new(table.values.len(), |i: int| arg_context(table.values[i])),
    }
}

/// The contexts of arguments.
fn contexts_of(table: &Table<ArgInfo>) -> (r: Table<Context>)
    ensures
        (TableView { names: set_names(r.names), values: context_models(r.values@) })
            == only_contexts(table@),
{
    broadcast use group_analyzer;

    let mut values: Vec<Context> = Vec::new();
    let mut i: usize = 0;
    while i < table.values.len()
        invariant
            i <= table.values@.len(),
            values@.len() == i,
            forall|k: int| 0 <= k < i ==> (#[trigger] values@[k])@ == table.values@[k].ctx@,
        decreases table.values@.len() - i,
    {
        values.push(table.values[i].ctx.copy());
        i = i + 1;
    }
    proof {
        let models = context_models(values@);
        assert forall|k: int| 0 <= k < models.len() implies #[trigger] models[k] == only_contexts(
            table@,
        ).values[k] by {
            assert(models[k] == values@[k]@);
            assert(table@.values[k] == table.values@[k]@);
        }
        assert(models =~= only_contexts(table@).values);
    }
    table.renamed(values)
}

/// The names of a table.
pub open spec fn names_only(table: TableView<ScopeIdView>) -> Seq<Seq<char>> {
    names_after(seq![], table)
}

/// The names of a table.
fn names_of(table: &Table<ScopeId>) -> (r: Vec<String>)
    ensures
        texts(r@) == names_only(table@),
{
    let empty: Vec<String> = Vec::new();
    assert(texts(empty@) =~= Seq::<Seq<char>>::empty());
    with_names(empty, table)
}

/// Whether a number is below zero.
pub open spec fn below_zero(number: int) -> bool {
    number < 0
}

/// Whether a number is below zero.
fn is_below_zero(number: &Int) -> (r: bool)
    ensures
        r == below_zero(number@),
{
    number.is_negative()
}

/// The position that an index denotes in a list of the given length, if it is within it.
pub open spec fn position_within(index: int, len: nat) -> Option<usize> {
    if 0 <= index < len && index <= usize::MAX {
        Some(index as usize)
    } else {
        None
    }
}

/// The position that an index denotes in a list of the given length, if it is within it.
fn index_within(index: &Int, len: usize) -> (r: Option<usize>)
    ensures
        r == position_within(index@, len as nat),
{
    match index.to_usize() {
        Some(i) => if i < len {
            Some(i)
        } else {
            None
        },
        None => None,
    }
}

/// The number that comes of writing digits behind a number.
pub open spec fn append_digits(value: int, digits: Seq<char>, i: int) -> int
    decreases digits.len() - i,
{
    if i < 0 || i >= digits.len() {
        value
    } else {
        append_digits(value * 10 + (digits[i] as int - '0' as int), digits, i + 1)
    }
}

/// The floating point number of a literal, unless a part of it is negative or its exponent is
/// too large.
pub open spec fn literal_float(integral: int, fractional: int, exponent: i64) -> Option<FloatView> {
    let digits = decimal(fractional as nat);
    let scale = digits.len() - exponent;
    if integral < 0 || fractional < 0 || scale < i64::MIN || scale > i64::MAX {
        None
    } else {
        Some(FloatView::Decimal { digits: append_digits(integral, digits, 0), scale: scale as i64 })
    }
}

/// The floating point number of a literal, unless a part of it is negative or its exponent is
/// too large.
fn float_of(integral: &Int, fractional: &Int, exponent: i64) -> (r: Option<Float>)
    ensures
        option_view(r) == literal_float(integral@, fractional@, exponent),
{
    if integral.is_negative() || fractional.is_negative() {
        return None;
    }
    let digits: Vec<char> = to_chars(&fractional.to_text());
    let ghost text = decimal(fractional@ as nat);
    assert(digits@ == text);
    let wide: i128 = digits.len() as i128 - exponent as i128;
    if wide < i64::MIN as i128 || wide > i64::MAX as i128 {
        return None;
    }
    let mut value: Int = integral.copy();
    let mut i: usize = 0;
    proof {
        lemma_decimal_digits(fractional@ as nat);
    }
    while i < digits.len()
        invariant
            i <= digits@.len(),
            digits@ == text,
            value@ >= 0,
            forall|k: int| 0 <= k < text.len() ==> '0' <= #[trigger] text[k] <= '9',
            append_digits(integral@, text, 0) == append_digits(value@, text, i as int),
        decreases digits@.len() - i,
    {
        assert('0' <= text[i as int] <= '9');
        let digit: u32 = digits[i] as u32 - '0' as u32;
        value = value.with_digit(10, digit);
        i = i + 1;
    }
    Some(Float::Decimal { digits: value, scale: wide as i64 })
}

impl AnalyzerView {
    /// Records in the control flow that a local variable or constant is used or assigned.
    #[verifier::opaque]
    pub open spec fn record_use(
        self,
        ctx: ContextView,
        node: ExprView,
        assigned: bool,
    ) -> (AnalyzerView, Result<(), StopView>)
    {
        let s = self;
        match ctx.value {
            ValueView::GetLocal { line_info: _, scope_id } => {
                match s.get_scope(scope_id) { Err(e) => (s, Err(e)), Ok(scope) => {
                match scope.kind {
                    ScopeKind::Variable | ScopeKind::Const => {
                        if s.get_current_block().is_none()
                            || s.get_enclosing_block(scope_id).is_none() {
                            (s, Err(StopView::Unsupported("not in a block"@)))
                        } else {
                        match node.line() { Err(e) => (s, Err(e)), Ok(line) => {
                        if assigned {
                            s.flow_insert(
                                ControlNodeView::Info(
                                    ControlInfoView::VarAssigned {
                                        line_info: line,
                                        scope_id: scope_id,
                                    },
                                ),
                            )
                        } else {
                        s.flow_insert(
                            ControlNodeView::Info(
                                ControlInfoView::VarUsed { line_info: line, scope_id: scope_id },
                            ),
                        )
                        }}}}
                    },
                    _ => {
                        (s, Ok(()))
                    },
                }
                }}
            },
            _ => {
                (s, Ok(()))
            },
        }
    }

    /// What an expression whose value is used stands for.
    #[verifier::opaque]
    pub open spec fn visit_expr(
        self,
        node: ExprView,
        fuel: int,
    ) -> (AnalyzerView, Result<ContextView, StopView>)
        decreases fuel, 5nat, 0int,
    {
        let s = self;
        match s.visit_expr_impl(node, fuel) { (s, Err(e)) => (s, Err(e)), (s, Ok(ctx)) => {
        match s.record_use(ctx, node, false) { (s, Err(e)) => (s, Err(e)), (s, Ok(_)) => {
        (s, Ok(ctx))
        }}}}
    }

    /// What an expression that is assigned to stands for.
    #[verifier::opaque]
    pub open spec fn visit_expr_lhs_of_assign(
        self,
        node: ExprView,
        fuel: int,
    ) -> (AnalyzerView, Result<ContextView, StopView>)
        decreases fuel, 5nat, 0int,
    {
        let s = self;
        match s.visit_expr_impl(node, fuel) { (s, Err(e)) => (s, Err(e)), (s, Ok(ctx)) => {
        match s.record_use(ctx, node, true) { (s, Err(e)) => (s, Err(e)), (s, Ok(_)) => {
        (s, Ok(ctx))
        }}}}
    }

    /// What an expression stands for.
    #[verifier::opaque]
    pub open spec fn visit_expr_impl(
        self,
        node: ExprView,
        fuel: int,
    ) -> (AnalyzerView, Result<ContextView, StopView>)
        decreases fuel, 4nat, 0int,
    {
        let s = self;
        if fuel <= 0 {
            (s, Err(StopView::Unsupported("nested too deeply"@)))
        } else {
        match node {
            ExprView::Block { line_info, stmts } => {
                s.visit_block(line_info, stmts, fuel - 1)
            },
            ExprView::Assign { lhses, op, rhses } => {
                match op.kind {
                    TokenKind::Equal => {
                        s.visit_assigns(node, lhses, rhses, seq![], fuel - 1, 0)
                    },
                    _ => {
                        (
                            s,
                            Err(
                                StopView::Errors(
                                    s.make_err(
                                        (
                                            "semantic analyzer does not understand operator '"@
                                                + op.text
                                                + "': not implemented yet"@
                                        ),
                                        op.line_info,
                                    ),
                                ),
                            ),
                        )
                    },
                }
            },
            ExprView::Binary { left, op, right } => {
                s.visit_binary(*left, op, *right, fuel - 1)
            },
            ExprView::Cast { expr, taipe } => {
                s.visit_cast(node, *expr, *taipe, fuel - 1)
            },
            ExprView::Unary { op, expr } => {
                s.visit_unary(op, *expr, fuel - 1)
            },
            ExprView::Member { expr, name } => {
                s.visit_member(node, *expr, name, fuel - 1)
            },
            ExprView::Call { line_info: _, expr, args } => {
                s.visit_call(node, *expr, args, fuel - 1)
            },
            ExprView::Index { line_info: _, expr, items } => {
                s.visit_index(node, *expr, items, fuel - 1)
            },
            ExprView::Literal(token) => {
                s.visit_literal(token, fuel - 1)
            },
            ExprView::Paren { line_info: _, expr } => {
                s.visit_expr(*expr, fuel - 1)
            },
            ExprView::Tuple { line_info: _, exprs } => {
                s.visit_tuple(exprs, seq![], seq![], fuel - 1, 0)
            },
            ExprView::ArrayLit { line_info: _, items: _ } => {
                (s, Err(StopView::Unsupported("not yet implemented"@)))
            },
            ExprView::Compeval { line_info: _, trivial, expr } => {
                match s.visit_expr(*expr, fuel - 1) { (s, Err(e)) => (s, Err(e)), (s, Ok(ctx)) => {
                match trivial {
                    None => {
                        (s, s.compeval_trivial(ctx))
                    },
                    Some(token) => {
                        match token.kind {
                            TokenKind::DirectiveTrivial => {
                                (s, s.compeval_trivial(ctx))
                            },
                            _ => {
                                (s, Err(StopView::Unsupported("probably some parser bug"@)))
                            },
                        }
                    },
                }
                }}
            },
        }
        }
    }

    /// The instruction that assigns to what an instruction reads.
    #[verifier::opaque]
    pub open spec fn set_value(
        self,
        lhs: ValueView,
        line: Span,
        rhs: ContextView,
    ) -> Result<ValueView, StopView>
    {
        match lhs {
            ValueView::GetGlobal { line_info: _, scope_id } => {
                Ok(ValueView::SetGlobal { line_info: line, scope_id, rhs: Box::new(rhs) })
            },
            ValueView::GetLocal { line_info: _, scope_id } => {
                Ok(ValueView::SetLocal { line_info: line, scope_id, rhs: Box::new(rhs) })
            },
            ValueView::GetField { line_info: _, lhs: base, scope_id } => {
                Ok(ValueView::SetField { line_info: line, lhs: base, scope_id, rhs: Box::new(rhs) })
            },
            _ => {
                Err(StopView::Unsupported("probably some analyzer bug"@))
            },
        }
    }

    /// Several assignments, those that were visited and the remaining ones.
    #[verifier::opaque]
    pub open spec fn visit_assigns(
        self,
        node: ExprView,
        lhses: Seq<ExprView>,
        rhses: Seq<ExprView>,
        assigns: Seq<ContextView>,
        fuel: int,
        i: int,
    ) -> (AnalyzerView, Result<ContextView, StopView>)
        decreases fuel, 6nat, rhses.len() - i,
    {
        let s = self;
        if i < 0 || i >= rhses.len() {
            if assigns.len() == 1 {
                (s, Ok(assigns[0]))
            } else {
            (s, Ok(ContextView::make(false, TypeView::Void, ValueView::Block(assigns))))
            }
        } else {
        match rhses[i].line() { Err(e) => (s, Err(e)), Ok(rhs_line) => {
        match s.visit_expr(rhses[i], fuel) { (s, Err(e)) => (s, Err(e)), (s, Ok(rhs)) => {
        if i >= lhses.len() {
            (s, Err(StopView::Unsupported("index out of bounds"@)))
        } else {
        match lhses[i].line() { Err(e) => (s, Err(e)), Ok(lhs_line) => {
        match s.visit_expr_lhs_of_assign(lhses[i], fuel) {
            (s, Err(e)) => (s, Err(e)), (s, Ok(lhs)) => {
        if !lhs.is_lvalue {
            (
                s,
                Err(
                    StopView::Errors(
                        s.make_err("cannot assign to a prvalue (pure rvalue)"@, lhs_line),
                    ),
                ),
            )
        } else {
        match s.resolve_assign(Some((lhs.taipe, lhs_line)), None, Some((rhs, rhs_line))) {
            Err(e) => (s, Err(e)), Ok(value) => {
        match node.line() { Err(e) => (s, Err(e)), Ok(line) => {
        match s.set_value(lhs.value, line, value) { Err(e) => (s, Err(e)), Ok(set) => {
        s.visit_assigns(
            node,
            lhses,
            rhses,
            assigns.push(ContextView::make(false, TypeView::Void, set)),
            fuel,
            i + 1,
        )
        }}}}}}}}}}}}}}}}}
    }

    /// What a binary operator on two expressions stands for.
    #[verifier::opaque]
    pub open spec fn visit_binary(
        self,
        left: ExprView,
        op: TokenView,
        right: ExprView,
        fuel: int,
    ) -> (AnalyzerView, Result<ContextView, StopView>)
        decreases fuel, 6nat, 0int,
    {
        let s = self;
        match left.line() { Err(e) => (s, Err(e)), Ok(left_line) => {
        match right.line() { Err(e) => (s, Err(e)), Ok(right_line) => {
        match s.visit_expr(left, fuel) { (s, Err(e)) => (s, Err(e)), (s, Ok(lhs)) => {
        match s.visit_expr(right, fuel) { (s, Err(e)) => (s, Err(e)), (s, Ok(rhs)) => {
        (s, s.binary_result(op, lhs, left_line, rhs, right_line, span_from(left_line, right_line)))
        }}}}}}}}
    }

    /// What a unary operator on an expression stands for.
    #[verifier::opaque]
    pub open spec fn visit_unary(
        self,
        op: TokenView,
        expr: ExprView,
        fuel: int,
    ) -> (AnalyzerView, Result<ContextView, StopView>)
        decreases fuel, 6nat, 0int,
    {
        let s = self;
        match s.visit_expr(expr, fuel) { (s, Err(e)) => (s, Err(e)), (s, Ok(ctx)) => {
        match expr.line() { Err(e) => (s, Err(e)), Ok(line) => {
        match op.kind {
            TokenKind::Minus => {
                (s, s.negate_result(ctx, line))
            },
            TokenKind::Tilde => {
                (s, s.flip_bits_result(ctx, line))
            },
            TokenKind::Star => {
                (s, s.deref_result(ctx, line))
            },
            TokenKind::Ampersand => {
                (s, s.addr_of_result(ctx, line))
            },
            TokenKind::Sizeof => {
                if !s.is_sizeof_permitted(ctx.taipe) {
                    (
                        s,
                        Err(
                            StopView::Errors(
                                s.make_err(
                                    (
                                        "cannot take sizeof value of type '"@
                                            + ctx.taipe.to_text()
                                            + "'"@
                                    ),
                                    line,
                                ),
                            ),
                        ),
                    )
                } else {
                match s.measured_type(ctx) { Err(e) => (s, Err(e)), Ok(taipe) => {
                match s.resolve_layout(taipe, line, 0xffff_ffff_ffff_ffff) {
                    (s, Err(e)) => (s, Err(e)), (s, Ok(layout)) => {
                (s, s.usize2usize(layout.size, line))
                }}}}}
            },
            TokenKind::Alignof => {
                if !s.is_sizeof_permitted(ctx.taipe) {
                    (
                        s,
                        Err(
                            StopView::Errors(
                                s.make_err(
                                    (
                                        "cannot take alignof value of type '"@
                                            + ctx.taipe.to_text()
                                            + "'"@
                                    ),
                                    line,
                                ),
                            ),
                        ),
                    )
                } else {
                match s.measured_type(ctx) { Err(e) => (s, Err(e)), Ok(taipe) => {
                match s.resolve_layout(taipe, line, 0xffff_ffff_ffff_ffff) {
                    (s, Err(e)) => (s, Err(e)), (s, Ok(layout)) => {
                (s, s.usize2usize(layout.alignment, line))
                }}}}}
            },
            TokenKind::Typeof => {
                (s, s.typeof_result(ctx, line))
            },
            TokenKind::Not => {
                (s, s.not_result(ctx, line))
            },
            _ => {
                (s, Err(StopView::Unsupported("probably some parser bug"@)))
            },
        }
        }}}}
    }

    /// What a cast of an expression stands for.
    #[verifier::opaque]
    pub open spec fn visit_cast(
        self,
        node: ExprView,
        expr: ExprView,
        target: ast::TypeView,
        fuel: int,
    ) -> (AnalyzerView, Result<ContextView, StopView>)
        decreases fuel, 6nat, 0int,
    {
        let s = self;
        match s.visit_expr(expr, fuel) { (s, Err(e)) => (s, Err(e)), (s, Ok(ctx)) => {
        match s.visit_type(target, fuel) { (s, Err(e)) => (s, Err(e)), (s, Ok(taipe)) => {
        if ctx.taipe.is_varint() && (taipe.is_integer() || taipe.is_float()) {
            match s.imm_of(ctx.value) { Err(e) => (s, Err(e)), Ok(imm) => {
            match expr.line() { Err(e) => (s, Err(e)), Ok(line) => {
            match s.transform_varint(taipe, imm, line, None) { Err(e) => (s, Err(e)), Ok(imm) => {
            (s, Ok(ContextView::make(false, taipe, ValueView::Imm(imm))))
            }}}}}}
        } else {
        if s.is_castable(ctx.taipe, taipe) {
            (s, Ok(ContextView::make(false, taipe, ValueView::Cast(Box::new(ctx)))))
        } else {
        match node.line() { Err(e) => (s, Err(e)), Ok(line) => {
        (
            s,
            Err(
                StopView::Errors(
                    s.make_err(
                        (
                            "cannot cast expression of type '"@
                                + ctx.to_text()
                                + "' to type '"@
                                + taipe.to_text()
                                + "'"@
                        ),
                        line,
                    ),
                ),
            ),
        )
        }}}}}}}}
    }

    /// The type whose members are meant: a pointer is followed. Whether the members are constant.
    #[verifier::opaque]
    pub open spec fn member_base(
        self,
        taipe: TypeView,
    ) -> (bool, TypeView)
    {
        match taipe {
            TypeView::Pointer(target) => {
                match *target {
                    TypeView::Const(inner) => {
                        (true, (*inner))
                    },
                    plain => {
                        (false, plain)
                    },
                }
            },
            TypeView::Const(constant) => {
                match *constant {
                    TypeView::Pointer(target) => {
                        match *target {
                            TypeView::Const(inner) => {
                                (true, (*inner))
                            },
                            plain => {
                                (false, plain)
                            },
                        }
                    },
                    plain => {
                        (true, plain)
                    },
                }
            },
            plain => {
                (false, plain)
            },
        }
    }

    /// What a member of an expression stands for.
    #[verifier::opaque]
    pub open spec fn visit_member(
        self,
        node: ExprView,
        expr: ExprView,
        name: TokenView,
        fuel: int,
    ) -> (AnalyzerView, Result<ContextView, StopView>)
        decreases fuel, 6nat, 0int,
    {
        let s = self;
        match s.visit_expr(expr, fuel) { (s, Err(e)) => (s, Err(e)), (s, Ok(ctx)) => {
        let (keep_const, taipe) = s.member_base(ctx.taipe);
        match taipe {
            TypeView::Basic(scope_id) => {
                match s.get_member(scope_id, name, fuel) {
                    (s, Err(e)) => (s, Err(e)), (s, Ok(member)) => {
                if !member.is_lvalue {
                    (s, Err(StopView::Unsupported("probably some analyzer bug"@)))
                } else {
                if keep_const {
                    (
                        s,
                        Ok(
                            ContextView::make(
                                ctx.is_lvalue,
                                TypeView::Const(Box::new(member.taipe)),
                                member.value,
                            ),
                        ),
                    )
                } else {
                (s, Ok(ContextView::make(ctx.is_lvalue, member.taipe, member.value)))
                }}}}
            },
            TypeView::Array { count: _, taipe: _ } | TypeView::Fat(_) => {
                (s, Err(StopView::Unsupported("not yet implemented"@)))
            },
            TypeView::Tuple(items) => {
                (s, s.tuple_member(node, name, items, keep_const, ctx))
            },
            TypeView::Module => {
                match ctx.value {
                    ValueView::Imm(ImmView::Module(module)) => {
                        s.get_member(module, name, fuel)
                    },
                    _ => {
                        (s, Err(StopView::Unsupported("probably some analyzer bug"@)))
                    },
                }
            },
            other => {
                match expr.line() { Err(e) => (s, Err(e)), Ok(line) => {
                (
                    s,
                    Err(
                        StopView::Errors(
                            s.make_err(
                                ("cannot use '.' operator on '"@ + other.to_text() + "'"@),
                                line,
                            ),
                        ),
                    ),
                )
                }}
            },
        }
        }}
    }

    /// What an item of a tuple stands for.
    #[verifier::opaque]
    pub open spec fn tuple_member(
        self,
        node: ExprView,
        name: TokenView,
        items: Seq<TypeView>,
        keep_const: bool,
        ctx: ContextView,
    ) -> Result<ContextView, StopView>
    {
        let s = self;
        match name.kind {
            TokenKind::IntLit => {
                match name.value {
                    Some(TokenValueView::Int { integral, suffix }) => {
                        if suffix.is_some() {
                            Err(
                                StopView::Errors(
                                    s.make_err(
                                        "suffix is not allowed in this context"@,
                                        name.line_info,
                                    ),
                                ),
                            )
                        } else {
                        let imm = ImmView::VarInt(integral);
                        if below_zero(integral) {
                            Err(
                                StopView::Unsupported(
                                    "called `Option::unwrap()` on a `None` value"@,
                                ),
                            )
                        } else {
                        match position_within(integral, items.len()) { None => {
                            Err(
                                StopView::Errors(
                                    s.make_err(
                                        (
                                            "index out of bounds, tuple length: "@
                                                + length_decimal(items.len())
                                                + ", index: '"@
                                                + imm.to_text()
                                                + "'"@
                                        ),
                                        name.line_info,
                                    ),
                                ),
                            )
                        }, Some(place) => {
                        match nth_type(items, place) { None => {
                            Err(StopView::Unsupported("index out of bounds"@))
                        }, Some(item) => {
                        let taipe = if keep_const { item.add_const() } else { item };
                        match s.transform_varint_to_usize(imm, name.line_info) {
                            Err(e) => Err(e), Ok(index) => {
                        match node.line() { Err(e) => Err(e), Ok(line) => {
                        Ok(
                            ContextView::make(
                                ctx.is_lvalue,
                                taipe,
                                ValueView::Index {
                                    line_info: line,
                                    lhs: Box::new(
                                        ContextView::make(
                                            ctx.is_lvalue,
                                            TypeView::Tuple(items),
                                            ctx.value,
                                        ),
                                    ),
                                    index: Box::new(
                                        ContextView::make(
                                            false,
                                            s.usize_type(),
                                            ValueView::Imm(index),
                                        ),
                                    ),
                                },
                            ),
                        )
                        }}}}}}}}}}
                    },
                    _ => {
                        Err(StopView::Unsupported("probably some lexer bug"@))
                    },
                }
            },
            _ => {
                Err(
                    StopView::Errors(
                        s.make_err(("expected "@ + kind_repr(TokenKind::IntLit)), name.line_info),
                    ),
                )
            },
        }
    }

    /// The region of several expressions.
    #[verifier::opaque]
    pub open spec fn exprs_line(
        self,
        items: Seq<ExprView>,
    ) -> Result<Span, StopView>
    {
        if items.len() == 0 {
            Err(StopView::Unsupported("no line information"@))
        } else {
        match items[0].line() { Err(e) => Err(e), Ok(first) => {
        match items[items.len() - 1].line() { Err(e) => Err(e), Ok(last) => {
        Ok(span_from(first, last))
        }}}}}
    }

    /// What an item of an array or a fat pointer stands for.
    #[verifier::opaque]
    pub open spec fn visit_index(
        self,
        node: ExprView,
        expr: ExprView,
        items: Seq<ExprView>,
        fuel: int,
    ) -> (AnalyzerView, Result<ContextView, StopView>)
        decreases fuel, 6nat, 0int,
    {
        let s = self;
        if items.len() != 1 {
            match s.exprs_line(items) { Err(e) => (s, Err(e)), Ok(items_line) => {
            (
                s,
                Err(
                    StopView::Errors(
                        s.make_err("only 1 argument is allowed in index operator"@, items_line),
                    ),
                ),
            )
            }}
        } else {
        match s.visit_expr(expr, fuel) { (s, Err(e)) => (s, Err(e)), (s, Ok(ctx)) => {
        match s.visit_expr(items[0], fuel) { (s, Err(e)) => (s, Err(e)), (s, Ok(index)) => {
        if !index.taipe.is_integer() {
            match node.line() { Err(e) => (s, Err(e)), Ok(line) => {
            match items[0].line() { Err(e) => (s, Err(e)), Ok(index_line) => {
            (s, Err(StopView::Errors(ErrorView::pair(
                        s.make_err("argument of index operator should be an integer type"@, line),
                        s.make_note(("but got '"@ + index.taipe.to_text() + "'"@), index_line)))))
            }}}}
        } else {
        match ctx.taipe.remove_const() {
            TypeView::Array { count: _, taipe } => {
                match node.line() { Err(e) => (s, Err(e)), Ok(line) => {
                (
                    s,
                    Ok(
                        ContextView::make(
                            false,
                            *taipe,
                            ValueView::Index {
                                line_info: line,
                                lhs: Box::new(ctx),
                                index: Box::new(index),
                            },
                        ),
                    ),
                )
                }}
            },
            TypeView::Fat(taipe) => {
                match node.line() { Err(e) => (s, Err(e)), Ok(line) => {
                (
                    s,
                    Ok(
                        ContextView::make(
                            false,
                            *taipe,
                            ValueView::Index {
                                line_info: line,
                                lhs: Box::new(ctx),
                                index: Box::new(index),
                            },
                        ),
                    ),
                )
                }}
            },
            _ => {
                match expr.line() { Err(e) => (s, Err(e)), Ok(expr_line) => {
                (
                    s,
                    Err(
                        StopView::Errors(
                            s.make_err(
                                (
                                    "cannot use index operator on type '"@
                                        + ctx.taipe.to_text()
                                        + "'"@
                                ),
                                expr_line,
                            ),
                        ),
                    ),
                )
                }}
            },
        }
        }}}}}}
    }

    /// What a literal or a name stands for.
    #[verifier::opaque]
    pub open spec fn visit_literal(
        self,
        token: TokenView,
        fuel: int,
    ) -> (AnalyzerView, Result<ContextView, StopView>)
        decreases fuel, 6nat, 0int,
    {
        let s = self;
        match token.kind {
            TokenKind::True => {
                (s, Ok(ContextView::from_bool(true)))
            },
            TokenKind::False => {
                (s, Ok(ContextView::from_bool(false)))
            },
            TokenKind::StringLit => {
                match token.value {
                    Some(TokenValueView::String(text)) => {
                        (s, Ok(ContextView::from_str(text)))
                    },
                    _ => {
                        (s, Err(StopView::Unsupported("probably some lexer bug"@)))
                    },
                }
            },
            TokenKind::IntLit => {
                (s, s.int_literal(token))
            },
            TokenKind::FloatLit => {
                (s, s.float_literal(token))
            },
            TokenKind::Ident => {
                s.get_name(token, fuel)
            },
            _ => {
                (s, Err(StopView::Unsupported("probably some parser bug"@)))
            },
        }
    }

    /// The type that the suffix of an integer literal stands for.
    #[verifier::opaque]
    pub open spec fn suffix_type(
        self,
        suffix: TokenSuffix,
    ) -> Option<TypeView>
    {
        match suffix {
            TokenSuffix::I8 => {
                Some(TypeView::Int8)
            },
            TokenSuffix::I16 => {
                Some(TypeView::Int16)
            },
            TokenSuffix::I32 => {
                Some(TypeView::Int32)
            },
            TokenSuffix::I64 => {
                Some(TypeView::Int64)
            },
            TokenSuffix::I128 => {
                Some(TypeView::Int128)
            },
            TokenSuffix::U8 => {
                Some(TypeView::Uint8)
            },
            TokenSuffix::U16 => {
                Some(TypeView::Uint16)
            },
            TokenSuffix::U32 => {
                Some(TypeView::Uint32)
            },
            TokenSuffix::U64 => {
                Some(TypeView::Uint64)
            },
            TokenSuffix::U128 => {
                Some(TypeView::Uint128)
            },
            _ => {
                None
            },
        }
    }

    /// What an integer literal stands for.
    #[verifier::opaque]
    pub open spec fn int_literal(
        self,
        token: TokenView,
    ) -> Result<ContextView, StopView>
    {
        let s = self;
        match token.value {
            Some(TokenValueView::Int { integral, suffix }) => {
                let imm = ImmView::VarInt(integral);
                match suffix {
                    None => {
                        Ok(ContextView::make(false, TypeView::VarInt, ValueView::Imm(imm)))
                    },
                    Some(TokenSuffix::ISize) => {
                        let taipe = s.isize_type();
                        match s.transform_varint(taipe, imm, token.line_info, Some("isize"@)) {
                            Err(e) => Err(e), Ok(value) => {
                        Ok(ContextView::make(false, taipe, ValueView::Imm(value)))
                        }}
                    },
                    Some(TokenSuffix::USize) => {
                        let taipe = s.usize_type();
                        match s.transform_varint(taipe, imm, token.line_info, Some("usize"@)) {
                            Err(e) => Err(e), Ok(value) => {
                        Ok(ContextView::make(false, taipe, ValueView::Imm(value)))
                        }}
                    },
                    Some(other) => {
                        match s.suffix_type(other) { None => {
                            Err(StopView::Unsupported("probably some lexer bug"@))
                        }, Some(taipe) => {
                        match s.transform_varint(taipe, imm, token.line_info, None) {
                            Err(e) => Err(e), Ok(value) => {
                        Ok(ContextView::make(false, taipe, ValueView::Imm(value)))
                        }}}}
                    },
                }
            },
            _ => {
                Err(StopView::Unsupported("probably some lexer bug"@))
            },
        }
    }

    /// What a floating point literal stands for.
    #[verifier::opaque]
    pub open spec fn float_literal(
        self,
        token: TokenView,
    ) -> Result<ContextView, StopView>
    {
        let s = self;
        match token.value {
            Some(TokenValueView::Float { integral, fractional, mantissa, suffix }) => {
                match ImmView::of_int(IntKind::Int64, mantissa) { None => {
                    Err(
                        StopView::Errors(
                            s.make_err(
                                (
                                    "'"@
                                        + TypeView::Int64.to_text()
                                        + "' cannot hold this value: '"@
                                        + ImmView::VarInt(mantissa).to_text()
                                        + "' as mantissa of the floating point literal"@
                                ),
                                token.line_info,
                            ),
                        ),
                    )
                }, Some(exponent) => {
                match exponent {
                    ImmView::Int64(power) => {
                        match literal_float(integral, fractional, power) { None => {
                            Err(StopView::Unsupported("attempt to subtract with overflow"@))
                        }, Some(float) => {
                        match suffix {
                            Some(TokenSuffix::F32) => {
                                Ok(
                                    ContextView::make(
                                        false,
                                        TypeView::Float32,
                                        ValueView::Imm(ImmView::Float32(float)),
                                    ),
                                )
                            },
                            Some(TokenSuffix::F64) => {
                                Ok(
                                    ContextView::make(
                                        false,
                                        TypeView::Float64,
                                        ValueView::Imm(ImmView::Float64(float)),
                                    ),
                                )
                            },
                            None => {
                                Ok(
                                    ContextView::make(
                                        false,
                                        TypeView::Float64,
                                        ValueView::Imm(ImmView::Float64(float)),
                                    ),
                                )
                            },
                            Some(_) => {
                                Err(StopView::Unsupported("probably some lexer bug"@))
                            },
                        }
                        }}
                    },
                    _ => {
                        Err(StopView::Unsupported("probably some analyzer bug"@))
                    },
                }
                }}
            },
            _ => {
                Err(StopView::Unsupported("probably some lexer bug"@))
            },
        }
    }

    /// Gives an integer literal the type `int`.
    #[verifier::opaque]
    pub open spec fn settle_int(
        self,
        ctx: ContextView,
        node: ExprView,
    ) -> Result<ContextView, StopView>
    {
        let s = self;
        if !ctx.taipe.is_varint() {
            Ok(ctx)
        } else {
        match s.imm_of(ctx.value) { Err(e) => Err(e), Ok(imm) => {
        match node.line() { Err(e) => Err(e), Ok(line) => {
        match s.transform_varint_to_int(imm, line) { Err(e) => Err(e), Ok(imm) => {
        Ok(ContextView::make(ctx.is_lvalue, s.int_type(), ValueView::Imm(imm)))
        }}}}}}}
    }

    /// What a tuple of expressions stands for, with the items that were visited.
    #[verifier::opaque]
    pub open spec fn visit_tuple(
        self,
        exprs: Seq<ExprView>,
        types: Seq<TypeView>,
        values: Seq<ValueView>,
        fuel: int,
        i: int,
    ) -> (AnalyzerView, Result<ContextView, StopView>)
        decreases fuel, 6nat, exprs.len() - i,
    {
        let s = self;
        if i < 0 || i >= exprs.len() {
            (s, Ok(ContextView::make(false, TypeView::Tuple(types), ValueView::Tuple(values))))
        } else {
        match s.visit_expr(exprs[i], fuel) { (s, Err(e)) => (s, Err(e)), (s, Ok(ctx)) => {
        match s.settle_int(ctx, exprs[i]) { Err(e) => (s, Err(e)), Ok(ctx) => {
        s.visit_tuple(exprs, types.push(ctx.taipe), values.push(ctx.value), fuel, i + 1)
        }}}}}
    }

    /// What a call stands for.
    #[verifier::opaque]
    pub open spec fn visit_call(
        self,
        node: ExprView,
        expr: ExprView,
        args: Seq<ArgView>,
        fuel: int,
    ) -> (AnalyzerView, Result<ContextView, StopView>)
        decreases fuel, 7nat, 0int,
    {
        let s = self;
        match s.visit_expr(expr, fuel) { (s, Err(e)) => (s, Err(e)), (s, Ok(ctx)) => {
        if !ctx.taipe.is_function() {
            match expr.line() { Err(e) => (s, Err(e)), Ok(expr_line) => {
            (
                s,
                Err(
                    StopView::Errors(
                        s.make_err(
                            ("expected function but got value of type '"@ + ctx.to_text() + "'"@),
                            expr_line,
                        ),
                    ),
                ),
            )
            }}
        } else {
        match s.visit_args(args, seq![], TableView::empty(), None, fuel, 0) {
            (s, Err(e)) => (s, Err(e)), (s, Ok(infos)) => {
        match node.line() { Err(e) => (s, Err(e)), Ok(line) => {
        (s, s.resolve_call(ctx, infos, line))
        }}}}}}}
    }

    /// The arguments of a call, those that were visited and the remaining ones.
    #[verifier::opaque]
    pub open spec fn visit_args(
        self,
        args: Seq<ArgView>,
        pos: Seq<ArgInfoView>,
        named: TableView<NamedArgView>,
        prev: Option<Span>,
        fuel: int,
        i: int,
    ) -> (AnalyzerView, Result<ArgsView, StopView>)
        decreases fuel, 6nat, args.len() - i,
    {
        let s = self;
        if i < 0 || i >= args.len() {
            (s, Ok(ArgsView { pos, named }))
        } else {
        match s.visit_expr(args[i].expr, fuel) { (s, Err(e)) => (s, Err(e)), (s, Ok(ctx)) => {
        match args[i].name {
            Some(name) => {
                match args[i].expr.line() { Err(e) => (s, Err(e)), Ok(expr_line) => {
                match named.find(name.text) {
                    Some(previous) => {
                        (
                            s,
                            Err(
                                StopView::Errors(
                                    ErrorView::pair(
                                        s.make_err("duplicate named argument"@, name.line_info),
                                        s.make_note(
                                            "previous named argument is here"@,
                                            previous.line,
                                        ),
                                    ),
                                ),
                            ),
                        )
                    },
                    None => {
                        s.visit_args(
                            args,
                            pos,
                            entered(
                                named,
                                name.text,
                                NamedArgView { ctx, line: name.line_info, expr_line },
                            ),
                            Some(name.line_info),
                            fuel,
                            i + 1,
                        )
                    },
                }
                }}
            },
            None => {
                match args[i].line() { Err(e) => (s, Err(e)), Ok(arg_line) => {
                match prev {
                    Some(named_line) => {
                        (
                            s,
                            Err(
                                StopView::Errors(
                                    ErrorView::pair(
                                        s.make_err(
                                            "unnamed argument is not allowed here"@,
                                            arg_line,
                                        ),
                                        s.make_note("previous named argument is here"@, named_line),
                                    ),
                                ),
                            ),
                        )
                    },
                    None => {
                        s.visit_args(
                            args,
                            pos.push(ArgInfoView { ctx, line: arg_line }),
                            named,
                            prev,
                            fuel,
                            i + 1,
                        )
                    },
                }
                }}
            },
        }
        }}}
    }

    /// What the call of a function with the given arguments stands for.
    #[verifier::opaque]
    pub open spec fn resolve_call(
        self,
        fun: ContextView,
        args: ArgsView,
        line: Span,
    ) -> Result<ContextView, StopView>
    {
        let s = self;
        match fun.value {
            ValueView::GetGlobal { line_info: _, scope_id } => {
                s.direct_call(scope_id, fun.taipe, args, line)
            },
            ValueView::GetLocal { line_info: _, scope_id } => {
                s.direct_call(scope_id, fun.taipe, args, line)
            },
            _ => {
                Err(StopView::Unsupported("not yet implemented"@))
            },
        }
    }

    /// What is known of a parameter.
    #[verifier::opaque]
    pub open spec fn param_info(
        self,
        scope_id: ScopeIdView,
    ) -> Result<ParamInfoView, StopView>
    {
        let s = self;
        match s.get_scope(scope_id) { Err(e) => Err(e), Ok(scope) => {
        match scope.payload {
            PayloadView::Param(param) => {
                Ok(param)
            },
            _ => {
                Err(StopView::Unsupported("probably some analyzer bug"@))
            },
        }
        }}
    }

    /// The reports on a number of arguments that the function does not take.
    #[verifier::opaque]
    pub open spec fn count_errors(
        self,
        info: FunctionInfoView,
        count: usize,
        line: Span,
    ) -> ErrorView
    {
        let s = self;
        let total = info.get_total_param_count();
        if info.default_param_count > 0 {
            let least = info.get_min_param_count();
            if count < least || count > total {
                ErrorView::empty().chain(
                    s.make_err(
                        (
                            "expected '"@
                                + size_decimal(least)
                                + "' to '"@
                                + size_decimal(total)
                                + "' argument"@
                                + plural_of(total)
                                + " but got '"@
                                + size_decimal(count)
                                + "'"@
                        ),
                        line,
                    ),
                )
            } else {
                ErrorView::empty()
            }
        } else {
            if count != total {
                ErrorView::empty().chain(
                    s.make_err(
                        (
                            "expected '"@
                                + size_decimal(total)
                                + "' argument"@
                                + plural_of(total)
                                + " but got '"@
                                + size_decimal(count)
                                + "'"@
                        ),
                        line,
                    ),
                )
            } else {
                ErrorView::empty()
            }
        }
    }

    /// What the call of a known function stands for. All that is wrong with the arguments is
    /// reported at once.
    #[verifier::opaque]
    pub open spec fn direct_call(
        self,
        scope_id: ScopeIdView,
        taipe: TypeView,
        args: ArgsView,
        line: Span,
    ) -> Result<ContextView, StopView>
    {
        let s = self;
        match s.function_info(scope_id) { Err(e) => Err(e), Ok(info) => {
        match total_args(args) { None => {
            Err(StopView::Unsupported("attempt to add with overflow"@))
        }, Some(count) => {
        let errs = s.count_errors(info, count, line);
        match s.take_positional(info.param_table, args.pos, TableView::empty(), errs, 0) {
            Err(e) => Err(e), Ok((taken, errs)) => {
        match s.take_named(scope_id, info.param_table, args.named, taken, errs, 0) {
            Err(e) => Err(e), Ok((taken, errs)) => {
        match s.take_defaults(scope_id, info.param_table, line, taken, errs, 0) {
            Err(e) => Err(e), Ok((taken, errs)) => {
        if !errs.is_empty() {
            Err(StopView::Errors(errs))
        } else {
        match taipe {
            TypeView::Function { ret: result, params: _ } => {
                Ok(
                    ContextView::make(
                        false,
                        (*result),
                        ValueView::DirectCall {
                            line_info: line,
                            fun_scope_id: scope_id,
                            args: only_contexts(taken),
                        },
                    ),
                )
            },
            _ => {
                Err(StopView::Unsupported("probably some analyzer bug"@))
            },
        }
        }}}}}}}}}}}
    }

    /// Gives the arguments without a name to the parameters in their order.
    #[verifier::opaque]
    pub open spec fn take_positional(
        self,
        params: TableView<ScopeIdView>,
        pos: Seq<ArgInfoView>,
        taken: TableView<ArgInfoView>,
        errs: ErrorView,
        i: int,
    ) -> Result<(TableView<ArgInfoView>, ErrorView), StopView>
        decreases pos.len() - i,
    {
        let s = self;
        if i < 0 || i >= pos.len() {
            Ok((taken, errs))
        } else {
        match nth_entry(params, i) { None => {
            Err(StopView::Unsupported("too many arguments"@))
        }, Some((name, param_id)) => {
        match s.param_info(param_id) { Err(e) => Err(e), Ok(param) => {
        match s.resolve_assign(
            Some((param.taipe, param.line_info)),
            None,
            Some((pos[i].ctx, pos[i].line)),
        ) {
            Ok(ctx) => {
                s.take_positional(
                    params,
                    pos,
                    entered(
                        taken,
                        name,
                        ArgInfoView {
                            ctx: ContextView::make(true, ctx.taipe, ctx.value),
                            line: pos[i].line,
                        },
                    ),
                    errs,
                    i + 1,
                )
            },
            Err(StopView::Errors(err)) => {
                s.take_positional(
                    params,
                    pos,
                    entered(
                        taken,
                        name,
                        ArgInfoView {
                            ctx: ContextView::make(true, param.taipe, ValueView::from_nil()),
                            line: pos[i].line,
                        },
                    ),
                    errs.chain(err),
                    i + 1,
                )
            },
            Err(e) => {
                Err(e)
            },
        }
        }}}}}
    }

    /// The reports with one more on an argument that was already given by its position.
    #[verifier::opaque]
    pub open spec fn twice_given(
        self,
        taken: TableView<ArgInfoView>,
        name: Seq<char>,
        line: Span,
        errs: ErrorView,
    ) -> ErrorView
    {
        let s = self;
        match taken.find(name) {
            Some(previous) => {
                errs.chain(s.make_err("duplicate named argument"@, line)).chain(
                    s.make_note("previous positional argument is here"@, previous.line),
                )
            },
            None => {
                errs
            },
        }
    }

    /// Gives the arguments with a name to their parameters.
    #[verifier::opaque]
    pub open spec fn take_named(
        self,
        scope_id: ScopeIdView,
        params: TableView<ScopeIdView>,
        named: TableView<NamedArgView>,
        taken: TableView<ArgInfoView>,
        errs: ErrorView,
        i: int,
    ) -> Result<(TableView<ArgInfoView>, ErrorView), StopView>
        decreases named.values.len() - i,
    {
        let s = self;
        if i < 0 || i >= named.values.len() {
            Ok((taken, errs))
        } else {
        match nth_named(named, i) { None => {
            Err(StopView::Unsupported("probably some analyzer bug"@))
        }, Some((name, arg)) => {
        match s.find_child(scope_id, name) { Err(e) => Err(e), Ok(found) => {
        match found {
            None => {
                Err(
                    StopView::Errors(
                        ErrorView::pair(
                            s.make_err(("unknown argument: '"@ + name + "'"@), arg.line),
                            s.make_did_you_mean_help(name, names_only(params)),
                        ),
                    ),
                )
            },
            Some(param_id) => {
                match s.param_info(param_id) { Err(e) => Err(e), Ok(param) => {
                match s.resolve_assign(
                    Some((param.taipe, param.line_info)),
                    None,
                    Some((arg.ctx, arg.expr_line)),
                ) {
                    Ok(ctx) => {
                        let more = s.twice_given(taken, name, arg.line, errs);
                        s.take_named(
                            scope_id,
                            params,
                            named,
                            entered(
                                taken,
                                name,
                                ArgInfoView {
                                    ctx: ContextView::make(true, ctx.taipe, ctx.value),
                                    line: arg.expr_line,
                                },
                            ),
                            more,
                            i + 1,
                        )
                    },
                    Err(StopView::Errors(err)) => {
                        let more = s.twice_given(taken, name, arg.line, errs.chain(err));
                        s.take_named(
                            scope_id,
                            params,
                            named,
                            entered(
                                taken,
                                name,
                                ArgInfoView {
                                    ctx: ContextView::make(
                                        true,
                                        param.taipe,
                                        ValueView::from_nil(),
                                    ),
                                    line: arg.expr_line,
                                },
                            ),
                            more,
                            i + 1,
                        )
                    },
                    Err(e) => {
                        Err(e)
                    },
                }
                }}
            },
        }
        }}}}}
    }

    /// Gives the parameters without an argument their default values.
    #[verifier::opaque]
    pub open spec fn take_defaults(
        self,
        scope_id: ScopeIdView,
        params: TableView<ScopeIdView>,
        line: Span,
        taken: TableView<ArgInfoView>,
        errs: ErrorView,
        i: int,
    ) -> Result<(TableView<ArgInfoView>, ErrorView), StopView>
        decreases params.values.len() - i,
    {
        let s = self;
        if i < 0 || i >= params.values.len() {
            Ok((taken, errs))
        } else {
        match nth_entry(params, i) { None => {
            Err(StopView::Unsupported("probably some analyzer bug"@))
        }, Some((name, _)) => {
        match s.find_child(scope_id, name) { Err(e) => Err(e), Ok(found) => {
        match found {
            None => {
                Err(StopView::Unsupported("probably some analyzer bug"@))
            },
            Some(param_id) => {
                match s.param_info(param_id) { Err(e) => Err(e), Ok(param) => {
                if taken.has(name) {
                    s.take_defaults(scope_id, params, line, taken, errs, i + 1)
                } else {
                match param.default {
                    Some(value) => {
                        s.take_defaults(
                            scope_id,
                            params,
                            line,
                            entered(
                                taken,
                                name,
                                ArgInfoView {
                                    ctx: ContextView::make(true, param.taipe, value),
                                    line,
                                },
                            ),
                            errs,
                            i + 1,
                        )
                    },
                    None => {
                        s.take_defaults(
                            scope_id,
                            params,
                            line,
                            taken,
                            errs.chain(
                                s.make_err(
                                    ("value of argument '"@ + name + "' is not provided"@),
                                    line,
                                ),
                            ).chain(s.make_note("declared here"@, param.line_info)),
                            i + 1,
                        )
                    },
                }
                }}}
            },
        }
        }}}}}
    }
}

impl<'a> Analyzer<'a> {
    /// Records in the control flow that a local variable or constant is used or assigned.
    pub(crate) fn record_use(
        &mut self,
        ctx: &Context,
        node: &Expr,
        assigned: bool,
    ) -> (r: Result<(), Stop>)
        requires
            old(self)@.wf(),
        ensures
            (final(self)@, outcome(r)) == old(self)@.record_use(ctx@, node@, assigned),
            final(self)@.follows(old(self)@),
            r is Ok ==> final(self)@.stack == old(self)@.stack,
    {
        broadcast use group_analyzer;

        proof {
            lemma_begin(self@);
            reveal(AnalyzerView::record_use);
            reveal(Context::model);
            reveal(Value::model);
        }
        match &ctx.value {
            Value::GetLocal { line_info: _, scope_id } => {
                let scope = match self.get_scope(scope_id) {
                    Ok(v) => v,
                    Err(e) => {
                        return Err(e);
                    },
                };
                match scope.kind {
                    ScopeKind::Variable | ScopeKind::Const => {
                        if self.get_current_block().is_none()
                            || self.get_enclosing_block(scope_id).is_none() {
                            return Err(Stop::Unsupported("not in a block".to_owned()));
                        }
                        let line = match line_of(node) {
                            Ok(v) => v,
                            Err(e) => {
                                return Err(e);
                            },
                        };
                        if assigned {
                            return self.flow_insert(
                                ControlNode::Info(
                                    ControlInfo::VarAssigned {
                                        line_info: line,
                                        scope_id: scope_id.copy(),
                                    },
                                ),
                            );
                        }
                        self.flow_insert(
                            ControlNode::Info(
                                ControlInfo::VarUsed { line_info: line, scope_id: scope_id.copy() },
                            ),
                        )
                    },
                    _ => {
                        Ok(())
                    },
                }
            },
            _ => {
                Ok(())
            },
        }
    }

    /// What an expression whose value is used stands for.
    pub(crate) fn visit_expr(
        &mut self,
        node: &'a Expr,
        fuel: u64,
    ) -> (r: Result<Context, Stop>)
        requires
            old(self)@.wf(),
        ensures
            (final(self)@, outcome(r)) == old(self)@.visit_expr(node@, fuel as int),
            final(self)@.follows(old(self)@),
        decreases fuel, 5nat,
    {
        broadcast use group_analyzer;

        proof {
            lemma_begin(self@);
            reveal(AnalyzerView::visit_expr);
            reveal(AnalyzerView::visit_expr_impl);
        }
        let ctx = match self.visit_expr_impl(node, fuel) {
            Ok(v) => v,
            Err(e) => {
                return Err(e);
            },
        };
        match self.record_use(&ctx, node, false) {
            Ok(_) => {},
            Err(e) => {
                return Err(e);
            },
        }
        Ok(ctx)
    }

    /// What an expression that is assigned to stands for.
    pub(crate) fn visit_expr_lhs_of_assign(
        &mut self,
        node: &'a Expr,
        fuel: u64,
    ) -> (r: Result<Context, Stop>)
        requires
            old(self)@.wf(),
        ensures
            (final(self)@, outcome(r)) == old(self)@.visit_expr_lhs_of_assign(node@, fuel as int),
            final(self)@.follows(old(self)@),
        decreases fuel, 5nat,
    {
        broadcast use group_analyzer;

        proof {
            lemma_begin(self@);
            reveal(AnalyzerView::visit_expr_lhs_of_assign);
            reveal(AnalyzerView::visit_expr_impl);
        }
        let ctx = match self.visit_expr_impl(node, fuel) {
            Ok(v) => v,
            Err(e) => {
                return Err(e);
            },
        };
        match self.record_use(&ctx, node, true) {
            Ok(_) => {},
            Err(e) => {
                return Err(e);
            },
        }
        Ok(ctx)
    }

    /// What an expression stands for.
    pub(crate) fn visit_expr_impl(
        &mut self,
        node: &'a Expr,
        fuel: u64,
    ) -> (r: Result<Context, Stop>)
        requires
            old(self)@.wf(),
        ensures
            (final(self)@, outcome(r)) == old(self)@.visit_expr_impl(node@, fuel as int),
            final(self)@.follows(old(self)@),
        decreases fuel, 4nat,
    {
        broadcast use group_analyzer;

        proof {
            lemma_begin(self@);
            reveal(AnalyzerView::visit_expr_impl);
            reveal(AnalyzerView::visit_assigns);
            reveal(AnalyzerView::visit_binary);
            reveal(AnalyzerView::visit_block);
            reveal(AnalyzerView::visit_call);
            reveal(AnalyzerView::visit_cast);
            reveal(AnalyzerView::visit_expr);
            reveal(AnalyzerView::visit_index);
            reveal(AnalyzerView::visit_literal);
            reveal(AnalyzerView::visit_member);
            reveal(AnalyzerView::visit_tuple);
            reveal(AnalyzerView::visit_unary);
            reveal(ast::Expr::model);
        }
        if fuel == 0 {
            return Err(Stop::Unsupported("nested too deeply".to_owned()));
        }
        match node {
            Expr::Block { line_info, stmts } => {
                self.visit_block(*line_info, stmts, fuel - 1)
            },
            Expr::Assign { lhses, op, rhses } => {
                match op.kind {
                    TokenKind::Equal => {
                        self.visit_assigns(node, lhses, rhses, Vec::new(), fuel - 1)
                    },
                    _ => {
                        Err(
                            Stop::Errors(
                                self.make_err(
                                    &join2(
                                        &join2(
                                            "semantic analyzer does not understand operator '",
                                            &op.text,
                                        ),
                                        "': not implemented yet",
                                    ),
                                    op.line_info,
                                ),
                            ),
                        )
                    },
                }
            },
            Expr::Binary { left, op, right } => {
                self.visit_binary(left, op, right, fuel - 1)
            },
            Expr::Cast { expr, taipe } => {
                self.visit_cast(node, expr, taipe, fuel - 1)
            },
            Expr::Unary { op, expr } => {
                self.visit_unary(op, expr, fuel - 1)
            },
            Expr::Member { expr, name } => {
                self.visit_member(node, expr, name, fuel - 1)
            },
            Expr::Call { line_info: _, expr, args } => {
                self.visit_call(node, expr, args, fuel - 1)
            },
            Expr::Index { line_info: _, expr, items } => {
                self.visit_index(node, expr, items, fuel - 1)
            },
            Expr::Literal(token) => {
                self.visit_literal(token, fuel - 1)
            },
            Expr::Paren { line_info: _, expr } => {
                self.visit_expr(expr, fuel - 1)
            },
            Expr::Tuple { line_info: _, exprs } => {
                self.visit_tuple(exprs, Vec::new(), Vec::new(), fuel - 1)
            },
            Expr::ArrayLit { line_info: _, items: _ } => {
                Err(Stop::Unsupported("not yet implemented".to_owned()))
            },
            Expr::Compeval { line_info: _, trivial, expr } => {
                let ctx = match self.visit_expr(expr, fuel - 1) {
                    Ok(v) => v,
                    Err(e) => {
                        return Err(e);
                    },
                };
                match trivial {
                    None => {
                        self.compeval_trivial(&ctx)
                    },
                    Some(token) => {
                        match token.kind {
                            TokenKind::DirectiveTrivial => {
                                self.compeval_trivial(&ctx)
                            },
                            _ => {
                                Err(Stop::Unsupported("probably some parser bug".to_owned()))
                            },
                        }
                    },
                }
            },
        }
    }

    /// The instruction that assigns to what an instruction reads.
    pub(crate) fn set_value(
        &self,
        lhs: Value,
        line: LineInfo,
        rhs: Context,
    ) -> (r: Result<Value, Stop>)
        requires
            self@.wf(),
        ensures
            outcome(r) == self@.set_value(lhs@, line@, rhs@),
    {
        broadcast use group_analyzer;

        proof {
            reveal(AnalyzerView::set_value);
            reveal(Context::model);
            reveal(Value::model);
        }
        match lhs {
            Value::GetGlobal { line_info: _, scope_id } => {
                Ok(Value::SetGlobal { line_info: line, scope_id, rhs: Box::new(rhs) })
            },
            Value::GetLocal { line_info: _, scope_id } => {
                Ok(Value::SetLocal { line_info: line, scope_id, rhs: Box::new(rhs) })
            },
            Value::GetField { line_info: _, lhs: base, scope_id } => {
                Ok(Value::SetField { line_info: line, lhs: base, scope_id, rhs: Box::new(rhs) })
            },
            _ => {
                Err(Stop::Unsupported("probably some analyzer bug".to_owned()))
            },
        }
    }

    /// Several assignments, those that were visited and the remaining ones.
    #[verifier::loop_isolation(false)]
    pub(crate) fn visit_assigns(
        &mut self,
        node: &'a Expr,
        lhses: &'a Vec<Expr>,
        rhses: &'a Vec<Expr>,
        assigns: Vec<Context>,
        fuel: u64,
    ) -> (r: Result<Context, Stop>)
        requires
            old(self)@.wf(),
        ensures
            (final(self)@, outcome(r)) == old(self)@.visit_assigns(
                node@,
                expr_models(lhses@),
                expr_models(rhses@),
                context_models(assigns@),
                fuel as int,
                0,
            ),
            final(self)@.follows(old(self)@),
        decreases fuel, 6nat,
    {
        broadcast use group_analyzer;

        proof {
            lemma_begin(self@);
            reveal(AnalyzerView::visit_assigns);
            reveal(AnalyzerView::visit_expr);
            reveal(AnalyzerView::visit_expr_lhs_of_assign);
            reveal(Context::model);
            reveal(Value::model);
        }
        let ghost goal = self@.visit_assigns(
            node@,
            expr_models(lhses@),
            expr_models(rhses@),
            context_models(assigns@),
            fuel as int,
            0,
        );
        let ghost begin = self@;
        let mut assigns: Vec<Context> = assigns;
        let mut i: usize = 0;
        while i < rhses.len()
            invariant
                i <= rhses@.len(),
                goal == self@.visit_assigns(
                    node@,
                    expr_models(lhses@),
                    expr_models(rhses@),
                    context_models(assigns@),
                    fuel as int,
                    i as int,
                ),
                self@.follows(begin),
                self@.comes_from(begin),
            decreases rhses@.len() - i,
        {
            proof {
                reveal(AnalyzerView::visit_assigns);
                reveal(AnalyzerView::visit_expr);
                reveal(AnalyzerView::visit_expr_lhs_of_assign);
                reveal(Context::model);
                reveal(Value::model);
            }
            let rhs_line = match line_of(&rhses[i]) {
                Ok(v) => v,
                Err(e) => {
                    return Err(e);
                },
            };
            let rhs = match self.visit_expr(&rhses[i], fuel) {
                Ok(v) => v,
                Err(e) => {
                    return Err(e);
                },
            };
            if i >= lhses.len() {
                return Err(Stop::Unsupported("index out of bounds".to_owned()));
            }
            let lhs_line = match line_of(&lhses[i]) {
                Ok(v) => v,
                Err(e) => {
                    return Err(e);
                },
            };
            let lhs = match self.visit_expr_lhs_of_assign(&lhses[i], fuel) {
                Ok(v) => v,
                Err(e) => {
                    return Err(e);
                },
            };
            if !lhs.is_lvalue {
                return Err(
                    Stop::Errors(
                        self.make_err("cannot assign to a prvalue (pure rvalue)", lhs_line),
                    ),
                );
            }
            let value = match self.resolve_assign(
                Some((lhs.taipe, lhs_line)),
                None,
                Some((rhs, rhs_line)),
            ) {
                Ok(v) => v,
                Err(e) => {
                    return Err(e);
                },
            };
            let line = match line_of(node) {
                Ok(v) => v,
                Err(e) => {
                    return Err(e);
                },
            };
            let set = match self.set_value(lhs.value, line, value) {
                Ok(v) => v,
                Err(e) => {
                    return Err(e);
                },
            };
            assigns.push(Context::make(false, Type::Void, set));
            i = i + 1;
        }
        if assigns.len() == 1 {
            return Ok(assigns[0].copy());
        }
        Ok(Context::make(false, Type::Void, Value::Block(assigns)))
    }

    /// What a binary operator on two expressions stands for.
    pub(crate) fn visit_binary(
        &mut self,
        left: &'a Expr,
        op: &Token,
        right: &'a Expr,
        fuel: u64,
    ) -> (r: Result<Context, Stop>)
        requires
            old(self)@.wf(),
        ensures
            (final(self)@, outcome(r)) == old(self)@.visit_binary(left@, op@, right@, fuel as int),
            final(self)@.follows(old(self)@),
        decreases fuel, 6nat,
    {
        broadcast use group_analyzer;

        proof {
            lemma_begin(self@);
            reveal(AnalyzerView::visit_binary);
            reveal(AnalyzerView::visit_expr);
        }
        let left_line = match line_of(left) {
            Ok(v) => v,
            Err(e) => {
                return Err(e);
            },
        };
        let right_line = match line_of(right) {
            Ok(v) => v,
            Err(e) => {
                return Err(e);
            },
        };
        let lhs = match self.visit_expr(left, fuel) {
            Ok(v) => v,
            Err(e) => {
                return Err(e);
            },
        };
        let rhs = match self.visit_expr(right, fuel) {
            Ok(v) => v,
            Err(e) => {
                return Err(e);
            },
        };
        self.binary_result(
            op,
            lhs,
            left_line,
            rhs,
            right_line,
            LineInfo::from_range(&left_line, &right_line),
        )
    }

    /// What a unary operator on an expression stands for.
    pub(crate) fn visit_unary(
        &mut self,
        op: &Token,
        expr: &'a Expr,
        fuel: u64,
    ) -> (r: Result<Context, Stop>)
        requires
            old(self)@.wf(),
        ensures
            (final(self)@, outcome(r)) == old(self)@.visit_unary(op@, expr@, fuel as int),
            final(self)@.follows(old(self)@),
        decreases fuel, 6nat,
    {
        broadcast use group_analyzer;

        proof {
            lemma_begin(self@);
            reveal(AnalyzerView::visit_unary);
            reveal(AnalyzerView::visit_expr);
            reveal(Context::model);
            reveal(Value::model);
        }
        let ctx = match self.visit_expr(expr, fuel) {
            Ok(v) => v,
            Err(e) => {
                return Err(e);
            },
        };
        let line = match line_of(expr) {
            Ok(v) => v,
            Err(e) => {
                return Err(e);
            },
        };
        match op.kind {
            TokenKind::Minus => {
                self.negate_result(ctx, line)
            },
            TokenKind::Tilde => {
                self.flip_bits_result(ctx, line)
            },
            TokenKind::Star => {
                self.deref_result(ctx, line)
            },
            TokenKind::Ampersand => {
                self.addr_of_result(ctx, line)
            },
            TokenKind::Sizeof => {
                if !self.is_sizeof_permitted(&ctx.taipe) {
                    return Err(
                        Stop::Errors(
                            self.make_err(
                                &join2(
                                    &join2(
                                        "cannot take sizeof value of type '",
                                        &ctx.taipe.to_text(),
                                    ),
                                    "'",
                                ),
                                line,
                            ),
                        ),
                    );
                }
                let taipe = match self.measured_type(ctx) {
                    Ok(v) => v,
                    Err(e) => {
                        return Err(e);
                    },
                };
                let layout = match self.resolve_layout(&taipe, line, 0xffff_ffff_ffff_ffff) {
                    Ok(v) => v,
                    Err(e) => {
                        return Err(e);
                    },
                };
                self.usize2usize(layout.size, line)
            },
            TokenKind::Alignof => {
                if !self.is_sizeof_permitted(&ctx.taipe) {
                    return Err(
                        Stop::Errors(
                            self.make_err(
                                &join2(
                                    &join2(
                                        "cannot take alignof value of type '",
                                        &ctx.taipe.to_text(),
                                    ),
                                    "'",
                                ),
                                line,
                            ),
                        ),
                    );
                }
                let taipe = match self.measured_type(ctx) {
                    Ok(v) => v,
                    Err(e) => {
                        return Err(e);
                    },
                };
                let layout = match self.resolve_layout(&taipe, line, 0xffff_ffff_ffff_ffff) {
                    Ok(v) => v,
                    Err(e) => {
                        return Err(e);
                    },
                };
                self.usize2usize(layout.alignment, line)
            },
            TokenKind::Typeof => {
                self.typeof_result(ctx, line)
            },
            TokenKind::Not => {
                self.not_result(ctx, line)
            },
            _ => {
                Err(Stop::Unsupported("probably some parser bug".to_owned()))
            },
        }
    }

    /// What a cast of an expression stands for.
    pub(crate) fn visit_cast(
        &mut self,
        node: &'a Expr,
        expr: &'a Expr,
        target: &'a ast::Type,
        fuel: u64,
    ) -> (r: Result<Context, Stop>)
        requires
            old(self)@.wf(),
        ensures
            (final(self)@, outcome(r)) == old(self)@.visit_cast(node@, expr@, target@, fuel as int),
            final(self)@.follows(old(self)@),
        decreases fuel, 6nat,
    {
        broadcast use group_analyzer;

        proof {
            lemma_begin(self@);
            reveal(AnalyzerView::visit_cast);
            reveal(AnalyzerView::visit_expr);
            reveal(AnalyzerView::visit_type);
            reveal(Context::model);
            reveal(Value::model);
        }
        let ctx = match self.visit_expr(expr, fuel) {
            Ok(v) => v,
            Err(e) => {
                return Err(e);
            },
        };
        let taipe = match self.visit_type(target, fuel) {
            Ok(v) => v,
            Err(e) => {
                return Err(e);
            },
        };
        if ctx.taipe.is_varint() && (taipe.is_integer() || taipe.is_float()) {
            let imm = match self.imm_of(&ctx.value) {
                Ok(v) => v,
                Err(e) => {
                    return Err(e);
                },
            };
            let line = match line_of(expr) {
                Ok(v) => v,
                Err(e) => {
                    return Err(e);
                },
            };
            let imm = match self.transform_varint(&taipe, &imm, line, None) {
                Ok(v) => v,
                Err(e) => {
                    return Err(e);
                },
            };
            return Ok(Context::make(false, taipe, Value::Imm(imm)));
        }
        if self.is_castable(&ctx.taipe, &taipe) {
            return Ok(Context::make(false, taipe, Value::Cast(Box::new(ctx))));
        }
        let line = match line_of(node) {
            Ok(v) => v,
            Err(e) => {
                return Err(e);
            },
        };
        Err(
            Stop::Errors(
                self.make_err(
                    &join2(
                        &join2(
                            &join2(
                                &join2("cannot cast expression of type '", &ctx.to_text()),
                                "' to type '",
                            ),
                            &taipe.to_text(),
                        ),
                        "'",
                    ),
                    line,
                ),
            ),
        )
    }

    /// The type whose members are meant: a pointer is followed. Whether the members are constant.
    pub(crate) fn member_base(
        &self,
        taipe: &Type,
    ) -> (r: (bool, Type))
        requires
            self@.wf(),
        ensures
            r@ == self@.member_base(taipe@),
    {
        broadcast use group_analyzer;

        proof {
            reveal(AnalyzerView::member_base);
        }
        proof {
            reveal_with_fuel(Type::model, 4);
        }
        match taipe {
            Type::Pointer(target) => {
                match &**target {
                    Type::Const(inner) => {
                        (true, (inner).copy())
                    },
                    plain => {
                        (false, plain.copy())
                    },
                }
            },
            Type::Const(constant) => {
                match &**constant {
                    Type::Pointer(target) => {
                        match &**target {
                            Type::Const(inner) => {
                                (true, (inner).copy())
                            },
                            plain => {
                                (false, plain.copy())
                            },
                        }
                    },
                    plain => {
                        (true, plain.copy())
                    },
                }
            },
            plain => {
                (false, plain.copy())
            },
        }
    }

    /// What a member of an expression stands for.
    pub(crate) fn visit_member(
        &mut self,
        node: &'a Expr,
        expr: &'a Expr,
        name: &Token,
        fuel: u64,
    ) -> (r: Result<Context, Stop>)
        requires
            old(self)@.wf(),
        ensures
            (final(self)@, outcome(r)) == old(self)@.visit_member(node@, expr@, name@, fuel as int),
            final(self)@.follows(old(self)@),
        decreases fuel, 6nat,
    {
        broadcast use group_analyzer;

        proof {
            lemma_begin(self@);
            reveal(AnalyzerView::visit_member);
            reveal(AnalyzerView::get_member);
            reveal(AnalyzerView::visit_expr);
            reveal(Context::model);
            reveal(Value::model);
        }
        let ctx = match self.visit_expr(expr, fuel) {
            Ok(v) => v,
            Err(e) => {
                return Err(e);
            },
        };
        let (keep_const, taipe) = self.member_base(&ctx.taipe);
        match taipe {
            Type::Basic(scope_id) => {
                let member = match self.get_member(&scope_id, name, fuel) {
                    Ok(v) => v,
                    Err(e) => {
                        return Err(e);
                    },
                };
                if !member.is_lvalue {
                    return Err(Stop::Unsupported("probably some analyzer bug".to_owned()));
                }
                if keep_const {
                    return Ok(
                        Context::make(
                            ctx.is_lvalue,
                            Type::Const(Box::new(member.taipe)),
                            member.value,
                        ),
                    );
                }
                Ok(Context::make(ctx.is_lvalue, member.taipe, member.value))
            },
            Type::Array { count: _, taipe: _ } | Type::Fat(_) => {
                Err(Stop::Unsupported("not yet implemented".to_owned()))
            },
            Type::Tuple(items) => {
                self.tuple_member(node, name, items, keep_const, ctx)
            },
            Type::Module => {
                match &ctx.value {
                    Value::Imm(Imm::Module(module)) => {
                        self.get_member(module, name, fuel)
                    },
                    _ => {
                        Err(Stop::Unsupported("probably some analyzer bug".to_owned()))
                    },
                }
            },
            other => {
                let line = match line_of(expr) {
                    Ok(v) => v,
                    Err(e) => {
                        return Err(e);
                    },
                };
                Err(
                    Stop::Errors(
                        self.make_err(
                            &join2(&join2("cannot use '.' operator on '", &other.to_text()), "'"),
                            line,
                        ),
                    ),
                )
            },
        }
    }

    /// What an item of a tuple stands for.
    pub(crate) fn tuple_member(
        &self,
        node: &Expr,
        name: &Token,
        items: Vec<Type>,
        keep_const: bool,
        ctx: Context,
    ) -> (r: Result<Context, Stop>)
        requires
            self@.wf(),
        ensures
            outcome(r) == self@.tuple_member(node@, name@, type_models(items@), keep_const, ctx@),
    {
        broadcast use group_analyzer;

        proof {
            reveal(AnalyzerView::tuple_member);
            reveal(Context::model);
            reveal(Value::model);
        }
        match name.kind {
            TokenKind::IntLit => {
                match &name.value {
                    Some(TokenValue::Int { integral, suffix }) => {
                        if suffix.is_some() {
                            return Err(
                                Stop::Errors(
                                    self.make_err(
                                        "suffix is not allowed in this context",
                                        name.line_info,
                                    ),
                                ),
                            );
                        }
                        let imm = Imm::VarInt(integral.copy());
                        if is_below_zero(integral) {
                            return Err(
                                Stop::Unsupported(
                                    "called `Option::unwrap()` on a `None` value".to_owned(),
                                ),
                            );
                        }
                        let Some(place) = index_within(integral, items.len()) else {
                            return Err(
                                Stop::Errors(
                                    self.make_err(
                                        &join2(
                                            &join2(
                                                &join2(
                                                    &join2(
                                                        "index out of bounds, tuple length: ",
                                                        &length_text(items.len()),
                                                    ),
                                                    ", index: '",
                                                ),
                                                &imm.to_text(),
                                            ),
                                            "'",
                                        ),
                                        name.line_info,
                                    ),
                                ),
                            );
                        };
                        let Some(item) = type_at(&items, place) else {
                            return Err(Stop::Unsupported("index out of bounds".to_owned()));
                        };
                        let taipe = if keep_const { item.copy().add_const() } else { item.copy() };
                        let index = match self.transform_varint_to_usize(&imm, name.line_info) {
                            Ok(v) => v,
                            Err(e) => {
                                return Err(e);
                            },
                        };
                        let line = match line_of(node) {
                            Ok(v) => v,
                            Err(e) => {
                                return Err(e);
                            },
                        };
                        Ok(
                            Context::make(
                                ctx.is_lvalue,
                                taipe,
                                Value::Index {
                                    line_info: line,
                                    lhs: Box::new(
                                        Context::make(ctx.is_lvalue, Type::Tuple(items), ctx.value),
                                    ),
                                    index: Box::new(
                                        Context::make(false, self.usize_type(), Value::Imm(index)),
                                    ),
                                },
                            ),
                        )
                    },
                    _ => {
                        Err(Stop::Unsupported("probably some lexer bug".to_owned()))
                    },
                }
            },
            _ => {
                Err(
                    Stop::Errors(
                        self.make_err(
                            &join2("expected ", &TokenKind::IntLit.get_repr()),
                            name.line_info,
                        ),
                    ),
                )
            },
        }
    }

    /// The region of several expressions.
    pub(crate) fn exprs_line(
        &self,
        items: &Vec<Expr>,
    ) -> (r: Result<LineInfo, Stop>)
        requires
            self@.wf(),
        ensures
            outcome(r) == self@.exprs_line(expr_models(items@)),
    {
        broadcast use group_analyzer;

        proof {
            reveal(AnalyzerView::exprs_line);
        }
        if items.len() == 0 {
            return Err(Stop::Unsupported("no line information".to_owned()));
        }
        let first = match line_of(&items[0]) {
            Ok(v) => v,
            Err(e) => {
                return Err(e);
            },
        };
        let last = match line_of(&items[items.len() - 1]) {
            Ok(v) => v,
            Err(e) => {
                return Err(e);
            },
        };
        Ok(LineInfo::from_range(&first, &last))
    }

    /// What an item of an array or a fat pointer stands for.
    pub(crate) fn visit_index(
        &mut self,
        node: &'a Expr,
        expr: &'a Expr,
        items: &'a Vec<Expr>,
        fuel: u64,
    ) -> (r: Result<Context, Stop>)
        requires
            old(self)@.wf(),
        ensures
            (final(self)@, outcome(r)) == old(self)@.visit_index(
                node@,
                expr@,
                expr_models(items@),
                fuel as int,
            ),
            final(self)@.follows(old(self)@),
        decreases fuel, 6nat,
    {
        broadcast use group_analyzer;

        proof {
            lemma_begin(self@);
            reveal(AnalyzerView::visit_index);
            reveal(AnalyzerView::visit_expr);
            reveal(Context::model);
            reveal(Value::model);
        }
        if items.len() != 1 {
            let items_line = match self.exprs_line(items) {
                Ok(v) => v,
                Err(e) => {
                    return Err(e);
                },
            };
            return Err(
                Stop::Errors(
                    self.make_err("only 1 argument is allowed in index operator", items_line),
                ),
            );
        }
        let ctx = match self.visit_expr(expr, fuel) {
            Ok(v) => v,
            Err(e) => {
                return Err(e);
            },
        };
        let index = match self.visit_expr(&items[0], fuel) {
            Ok(v) => v,
            Err(e) => {
                return Err(e);
            },
        };
        if !index.taipe.is_integer() {
            let line = match line_of(node) {
                Ok(v) => v,
                Err(e) => {
                    return Err(e);
                },
            };
            let index_line = match line_of(&items[0]) {
                Ok(v) => v,
                Err(e) => {
                    return Err(e);
                },
            };
            return Err(
                Stop::Errors(
                    CompileError::pair(
                        self.make_err("argument of index operator should be an integer type", line),
                        self.make_note(
                            &join2(&join2("but got '", &index.taipe.to_text()), "'"),
                            index_line,
                        ),
                    ),
                ),
            );
        }
        match ctx.taipe.remove_const() {
            Type::Array { count: _, taipe } => {
                let line = match line_of(node) {
                    Ok(v) => v,
                    Err(e) => {
                        return Err(e);
                    },
                };
                Ok(
                    Context::make(
                        false,
                        *taipe,
                        Value::Index {
                            line_info: line,
                            lhs: Box::new(ctx),
                            index: Box::new(index),
                        },
                    ),
                )
            },
            Type::Fat(taipe) => {
                let line = match line_of(node) {
                    Ok(v) => v,
                    Err(e) => {
                        return Err(e);
                    },
                };
                Ok(
                    Context::make(
                        false,
                        *taipe,
                        Value::Index {
                            line_info: line,
                            lhs: Box::new(ctx),
                            index: Box::new(index),
                        },
                    ),
                )
            },
            _ => {
                let expr_line = match line_of(expr) {
                    Ok(v) => v,
                    Err(e) => {
                        return Err(e);
                    },
                };
                Err(
                    Stop::Errors(
                        self.make_err(
                            &join2(
                                &join2("cannot use index operator on type '", &ctx.taipe.to_text()),
                                "'",
                            ),
                            expr_line,
                        ),
                    ),
                )
            },
        }
    }

    /// What a literal or a name stands for.
    pub(crate) fn visit_literal(
        &mut self,
        token: &Token,
        fuel: u64,
    ) -> (r: Result<Context, Stop>)
        requires
            old(self)@.wf(),
        ensures
            (final(self)@, outcome(r)) == old(self)@.visit_literal(token@, fuel as int),
            final(self)@.follows(old(self)@),
        decreases fuel, 6nat,
    {
        broadcast use group_analyzer;

        proof {
            lemma_begin(self@);
            reveal(AnalyzerView::visit_literal);
            reveal(AnalyzerView::get_name);
            reveal(Context::model);
            reveal(Value::model);
        }
        match token.kind {
            TokenKind::True => {
                Ok(Context::from_bool(true))
            },
            TokenKind::False => {
                Ok(Context::from_bool(false))
            },
            TokenKind::StringLit => {
                match &token.value {
                    Some(TokenValue::String(text)) => {
                        Ok(Context::from_str(text))
                    },
                    _ => {
                        Err(Stop::Unsupported("probably some lexer bug".to_owned()))
                    },
                }
            },
            TokenKind::IntLit => {
                self.int_literal(token)
            },
            TokenKind::FloatLit => {
                self.float_literal(token)
            },
            TokenKind::Ident => {
                self.get_name(token, fuel)
            },
            _ => {
                Err(Stop::Unsupported("probably some parser bug".to_owned()))
            },
        }
    }

    /// The type that the suffix of an integer literal stands for.
    pub(crate) fn suffix_type(
        &self,
        suffix: TokenSuffix,
    ) -> (r: Option<Type>)
        requires
            self@.wf(),
        ensures
            option_view(r) == self@.suffix_type(suffix),
    {
        broadcast use group_analyzer;

        proof {
            reveal(AnalyzerView::suffix_type);
        }
        match suffix {
            TokenSuffix::I8 => {
                Some(Type::Int8)
            },
            TokenSuffix::I16 => {
                Some(Type::Int16)
            },
            TokenSuffix::I32 => {
                Some(Type::Int32)
            },
            TokenSuffix::I64 => {
                Some(Type::Int64)
            },
            TokenSuffix::I128 => {
                Some(Type::Int128)
            },
            TokenSuffix::U8 => {
                Some(Type::Uint8)
            },
            TokenSuffix::U16 => {
                Some(Type::Uint16)
            },
            TokenSuffix::U32 => {
                Some(Type::Uint32)
            },
            TokenSuffix::U64 => {
                Some(Type::Uint64)
            },
            TokenSuffix::U128 => {
                Some(Type::Uint128)
            },
            _ => {
                None
            },
        }
    }

    /// What an integer literal stands for.
    pub(crate) fn int_literal(
        &self,
        token: &Token,
    ) -> (r: Result<Context, Stop>)
        requires
            self@.wf(),
        ensures
            outcome(r) == self@.int_literal(token@),
    {
        broadcast use group_analyzer;

        proof {
            reveal(AnalyzerView::int_literal);
            reveal(Context::model);
            reveal(Value::model);
        }
        match &token.value {
            Some(TokenValue::Int { integral, suffix }) => {
                let imm = Imm::VarInt(integral.copy());
                match suffix {
                    None => {
                        Ok(Context::make(false, Type::VarInt, Value::Imm(imm)))
                    },
                    Some(TokenSuffix::ISize) => {
                        let taipe = self.isize_type();
                        let value = match self.transform_varint(
                            &taipe,
                            &imm,
                            token.line_info,
                            Some("isize"),
                        ) {
                            Ok(v) => v,
                            Err(e) => {
                                return Err(e);
                            },
                        };
                        Ok(Context::make(false, taipe, Value::Imm(value)))
                    },
                    Some(TokenSuffix::USize) => {
                        let taipe = self.usize_type();
                        let value = match self.transform_varint(
                            &taipe,
                            &imm,
                            token.line_info,
                            Some("usize"),
                        ) {
                            Ok(v) => v,
                            Err(e) => {
                                return Err(e);
                            },
                        };
                        Ok(Context::make(false, taipe, Value::Imm(value)))
                    },
                    Some(other) => {
                        let Some(taipe) = self.suffix_type(*other) else {
                            return Err(Stop::Unsupported("probably some lexer bug".to_owned()));
                        };
                        let value = match self.transform_varint(
                            &taipe,
                            &imm,
                            token.line_info,
                            None,
                        ) {
                            Ok(v) => v,
                            Err(e) => {
                                return Err(e);
                            },
                        };
                        Ok(Context::make(false, taipe, Value::Imm(value)))
                    },
                }
            },
            _ => {
                Err(Stop::Unsupported("probably some lexer bug".to_owned()))
            },
        }
    }

    /// What a floating point literal stands for.
    pub(crate) fn float_literal(
        &self,
        token: &Token,
    ) -> (r: Result<Context, Stop>)
        requires
            self@.wf(),
        ensures
            outcome(r) == self@.float_literal(token@),
    {
        broadcast use group_analyzer;

        proof {
            reveal(AnalyzerView::float_literal);
            reveal(Context::model);
            reveal(Value::model);
        }
        match &token.value {
            Some(TokenValue::Float { integral, fractional, mantissa, suffix }) => {
                let Some(exponent) = Imm::of_int(IntKind::Int64, mantissa) else {
                    return Err(
                        Stop::Errors(
                            self.make_err(
                                &join2(
                                    &join2(
                                        &join2(
                                            &join2("'", &Type::Int64.to_text()),
                                            "' cannot hold this value: '",
                                        ),
                                        &Imm::VarInt(mantissa.copy()).to_text(),
                                    ),
                                    "' as mantissa of the floating point literal",
                                ),
                                token.line_info,
                            ),
                        ),
                    );
                };
                match exponent {
                    Imm::Int64(power) => {
                        let Some(float) = float_of(integral, fractional, power) else {
                            return Err(
                                Stop::Unsupported("attempt to subtract with overflow".to_owned()),
                            );
                        };
                        match suffix {
                            Some(TokenSuffix::F32) => {
                                Ok(
                                    Context::make(
                                        false,
                                        Type::Float32,
                                        Value::Imm(Imm::Float32(float)),
                                    ),
                                )
                            },
                            Some(TokenSuffix::F64) => {
                                Ok(
                                    Context::make(
                                        false,
                                        Type::Float64,
                                        Value::Imm(Imm::Float64(float)),
                                    ),
                                )
                            },
                            None => {
                                Ok(
                                    Context::make(
                                        false,
                                        Type::Float64,
                                        Value::Imm(Imm::Float64(float)),
                                    ),
                                )
                            },
                            Some(_) => {
                                Err(Stop::Unsupported("probably some lexer bug".to_owned()))
                            },
                        }
                    },
                    _ => {
                        Err(Stop::Unsupported("probably some analyzer bug".to_owned()))
                    },
                }
            },
            _ => {
                Err(Stop::Unsupported("probably some lexer bug".to_owned()))
            },
        }
    }

    /// Gives an integer literal the type `int`.
    pub(crate) fn settle_int(
        &self,
        ctx: Context,
        node: &Expr,
    ) -> (r: Result<Context, Stop>)
        requires
            self@.wf(),
        ensures
            outcome(r) == self@.settle_int(ctx@, node@),
    {
        broadcast use group_analyzer;

        proof {
            reveal(AnalyzerView::settle_int);
            reveal(Context::model);
            reveal(Value::model);
        }
        if !ctx.taipe.is_varint() {
            return Ok(ctx);
        }
        let imm = match self.imm_of(&ctx.value) {
            Ok(v) => v,
            Err(e) => {
                return Err(e);
            },
        };
        let line = match line_of(node) {
            Ok(v) => v,
            Err(e) => {
                return Err(e);
            },
        };
        let imm = match self.transform_varint_to_int(&imm, line) {
            Ok(v) => v,
            Err(e) => {
                return Err(e);
            },
        };
        Ok(Context::make(ctx.is_lvalue, self.int_type(), Value::Imm(imm)))
    }

    /// What a tuple of expressions stands for, with the items that were visited.
    #[verifier::loop_isolation(false)]
    pub(crate) fn visit_tuple(
        &mut self,
        exprs: &'a Vec<Expr>,
        types: Vec<Type>,
        values: Vec<Value>,
        fuel: u64,
    ) -> (r: Result<Context, Stop>)
        requires
            old(self)@.wf(),
        ensures
            (final(self)@, outcome(r)) == old(self)@.visit_tuple(
                expr_models(exprs@),
                type_models(types@),
                value_models(values@),
                fuel as int,
                0,
            ),
            final(self)@.follows(old(self)@),
        decreases fuel, 6nat,
    {
        broadcast use group_analyzer;

        proof {
            lemma_begin(self@);
            reveal(AnalyzerView::visit_tuple);
            reveal(AnalyzerView::visit_expr);
            reveal(Context::model);
            reveal(Value::model);
        }
        let ghost goal = self@.visit_tuple(
            expr_models(exprs@),
            type_models(types@),
            value_models(values@),
            fuel as int,
            0,
        );
        let ghost begin = self@;
        let mut types: Vec<Type> = types;
        let mut values: Vec<Value> = values;
        let mut i: usize = 0;
        while i < exprs.len()
            invariant
                i <= exprs@.len(),
                goal == self@.visit_tuple(
                    expr_models(exprs@),
                    type_models(types@),
                    value_models(values@),
                    fuel as int,
                    i as int,
                ),
                self@.follows(begin),
                self@.comes_from(begin),
            decreases exprs@.len() - i,
        {
            proof {
                reveal(AnalyzerView::visit_tuple);
                reveal(AnalyzerView::visit_expr);
                reveal(Context::model);
                reveal(Value::model);
            }
            let ctx = match self.visit_expr(&exprs[i], fuel) {
                Ok(v) => v,
                Err(e) => {
                    return Err(e);
                },
            };
            let ctx = match self.settle_int(ctx, &exprs[i]) {
                Ok(v) => v,
                Err(e) => {
                    return Err(e);
                },
            };
            types.push(ctx.taipe);
            values.push(ctx.value);
            i = i + 1;
        }
        Ok(Context::make(false, Type::Tuple(types), Value::Tuple(values)))
    }

    /// What a call stands for.
    pub(crate) fn visit_call(
        &mut self,
        node: &'a Expr,
        expr: &'a Expr,
        args: &'a Vec<Arg>,
        fuel: u64,
    ) -> (r: Result<Context, Stop>)
        requires
            old(self)@.wf(),
        ensures
            (final(self)@, outcome(r)) == old(self)@.visit_call(
                node@,
                expr@,
                arg_models(args@),
                fuel as int,
            ),
            final(self)@.follows(old(self)@),
        decreases fuel, 7nat,
    {
        broadcast use group_analyzer;

        proof {
            lemma_begin(self@);
            reveal(AnalyzerView::visit_call);
            reveal(AnalyzerView::visit_args);
            reveal(AnalyzerView::visit_expr);
            reveal(Context::model);
            reveal(Value::model);
        }
        let ctx = match self.visit_expr(expr, fuel) {
            Ok(v) => v,
            Err(e) => {
                return Err(e);
            },
        };
        if !ctx.taipe.is_function() {
            let expr_line = match line_of(expr) {
                Ok(v) => v,
                Err(e) => {
                    return Err(e);
                },
            };
            return Err(
                Stop::Errors(
                    self.make_err(
                        &join2(
                            &join2("expected function but got value of type '", &ctx.to_text()),
                            "'",
                        ),
                        expr_line,
                    ),
                ),
            );
        }
        let infos = match self.visit_args(args, Vec::new(), Table::empty(), None, fuel) {
            Ok(v) => v,
            Err(e) => {
                return Err(e);
            },
        };
        let line = match line_of(node) {
            Ok(v) => v,
            Err(e) => {
                return Err(e);
            },
        };
        self.resolve_call(ctx, infos, line)
    }

    /// The arguments of a call, those that were visited and the remaining ones.
    #[verifier::loop_isolation(false)]
    pub(crate) fn visit_args(
        &mut self,
        args: &'a Vec<Arg>,
        pos: Vec<ArgInfo>,
        named: Table<NamedArg>,
        prev: Option<LineInfo>,
        fuel: u64,
    ) -> (r: Result<Args, Stop>)
        requires
            old(self)@.wf(),
        ensures
            (final(self)@, outcome(r)) == old(self)@.visit_args(
                arg_models(args@),
                views(pos@),
                named@,
                option_view(prev),
                fuel as int,
                0,
            ),
            final(self)@.follows(old(self)@),
        decreases fuel, 6nat,
    {
        broadcast use group_analyzer;

        proof {
            lemma_begin(self@);
            reveal(AnalyzerView::visit_args);
            reveal(AnalyzerView::visit_expr);
        }
        let ghost goal = self@.visit_args(
            arg_models(args@),
            views(pos@),
            named@,
            option_view(prev),
            fuel as int,
            0,
        );
        let ghost begin = self@;
        let mut pos: Vec<ArgInfo> = pos;
        let mut named: Table<NamedArg> = named;
        let mut prev: Option<LineInfo> = prev;
        let mut i: usize = 0;
        while i < args.len()
            invariant
                i <= args@.len(),
                goal == self@.visit_args(
                    arg_models(args@),
                    views(pos@),
                    named@,
                    option_view(prev),
                    fuel as int,
                    i as int,
                ),
                self@.follows(begin),
                self@.comes_from(begin),
            decreases args@.len() - i,
        {
            proof {
                reveal(AnalyzerView::visit_args);
                reveal(AnalyzerView::visit_expr);
            }
            proof {
                ast::lemma_arg_model(args@[i as int]);
            }
            let ctx = match self.visit_expr(&args[i].expr, fuel) {
                Ok(v) => v,
                Err(e) => {
                    return Err(e);
                },
            };
            match &args[i].name {
                Some(name) => {
                    let expr_line = match line_of(&args[i].expr) {
                        Ok(v) => v,
                        Err(e) => {
                            return Err(e);
                        },
                    };
                    match named.find(&name.text) {
                        Some(previous) => {
                            return Err(
                                Stop::Errors(
                                    CompileError::pair(
                                        self.make_err("duplicate named argument", name.line_info),
                                        self.make_note(
                                            "previous named argument is here",
                                            previous.line,
                                        ),
                                    ),
                                ),
                            );
                        },
                        None => {
                            named = with_entry(
                                named,
                                name.text.clone(),
                                NamedArg { ctx, line: name.line_info, expr_line },
                            );
                            prev = Some(name.line_info);
                            i = i + 1;
                        },
                    }
                },
                None => {
                    let arg_line = match line_of(&args[i]) {
                        Ok(v) => v,
                        Err(e) => {
                            return Err(e);
                        },
                    };
                    match prev {
                        Some(named_line) => {
                            return Err(
                                Stop::Errors(
                                    CompileError::pair(
                                        self.make_err(
                                            "unnamed argument is not allowed here",
                                            arg_line,
                                        ),
                                        self.make_note(
                                            "previous named argument is here",
                                            named_line,
                                        ),
                                    ),
                                ),
                            );
                        },
                        None => {
                            pos.push(ArgInfo { ctx, line: arg_line });
                            i = i + 1;
                        },
                    }
                },
            }
        }
        Ok(Args { pos, named })
    }

    /// What the call of a function with the given arguments stands for.
    pub(crate) fn resolve_call(
        &self,
        fun: Context,
        args: Args,
        line: LineInfo,
    ) -> (r: Result<Context, Stop>)
        requires
            self@.wf(),
        ensures
            outcome(r) == self@.resolve_call(fun@, args@, line@),
    {
        broadcast use group_analyzer;

        proof {
            reveal(AnalyzerView::resolve_call);
            reveal(Context::model);
            reveal(Value::model);
        }
        match &fun.value {
            Value::GetGlobal { line_info: _, scope_id } => {
                self.direct_call(scope_id, &fun.taipe, args, line)
            },
            Value::GetLocal { line_info: _, scope_id } => {
                self.direct_call(scope_id, &fun.taipe, args, line)
            },
            _ => {
                Err(Stop::Unsupported("not yet implemented".to_owned()))
            },
        }
    }

    /// What is known of a parameter.
    pub(crate) fn param_info(
        &self,
        scope_id: &ScopeId,
    ) -> (r: Result<ParamInfo, Stop>)
        requires
            self@.wf(),
        ensures
            outcome(r) == self@.param_info(scope_id@),
    {
        broadcast use group_analyzer;

        proof {
            reveal(AnalyzerView::param_info);
        }
        let scope = match self.get_scope(scope_id) {
            Ok(v) => v,
            Err(e) => {
                return Err(e);
            },
        };
        match &scope.payload {
            Payload::Param(param) => {
                Ok(param.copy())
            },
            _ => {
                Err(Stop::Unsupported("probably some analyzer bug".to_owned()))
            },
        }
    }

    /// The reports on a number of arguments that the function does not take.
    pub(crate) fn count_errors(
        &self,
        info: &FunctionInfo,
        count: usize,
        line: LineInfo,
    ) -> (r: CompileError)
        requires
            self@.wf(),
        ensures
            r@ == self@.count_errors(info@, count, line@),
    {
        broadcast use group_analyzer;

        proof {
            reveal(AnalyzerView::count_errors);
        }
        let total: usize = info.get_total_param_count();
        if info.default_param_count > 0 {
            let least: usize = info.get_min_param_count();
            if count < least || count > total {
                CompileError::new().chain(
                    self.make_err(
                        &join2(
                            &join2(
                                &join2(
                                    &join2(
                                        &join2(
                                            &join2(
                                                &join2(
                                                    &join2("expected '", &size_text(least)),
                                                    "' to '",
                                                ),
                                                &size_text(total),
                                            ),
                                            "' argument",
                                        ),
                                        &get_plural(total),
                                    ),
                                    " but got '",
                                ),
                                &size_text(count),
                            ),
                            "'",
                        ),
                        line,
                    ),
                )
            } else {
                CompileError::new()
            }
        } else if count != total {
            CompileError::new().chain(
                self.make_err(
                    &join2(
                        &join2(
                            &join2(
                                &join2(
                                    &join2(&join2("expected '", &size_text(total)), "' argument"),
                                    &get_plural(total),
                                ),
                                " but got '",
                            ),
                            &size_text(count),
                        ),
                        "'",
                    ),
                    line,
                ),
            )
        } else {
            CompileError::new()
        }
    }

    /// What the call of a known function stands for. All that is wrong with the arguments is
    /// reported at once.
    pub(crate) fn direct_call(
        &self,
        scope_id: &ScopeId,
        taipe: &Type,
        args: Args,
        line: LineInfo,
    ) -> (r: Result<Context, Stop>)
        requires
            self@.wf(),
        ensures
            outcome(r) == self@.direct_call(scope_id@, taipe@, args@, line@),
    {
        broadcast use group_analyzer;

        proof {
            reveal(AnalyzerView::direct_call);
            reveal(Context::model);
            reveal(Value::model);
        }
        let info = match self.function_info(scope_id) {
            Ok(v) => v,
            Err(e) => {
                return Err(e);
            },
        };
        let Some(count) = arg_count(&args) else {
            return Err(Stop::Unsupported("attempt to add with overflow".to_owned()));
        };
        let errs = self.count_errors(info, count, line);
        let (taken, errs) = match self.take_positional(
            &info.param_table,
            &args.pos,
            Table::empty(),
            errs,
        ) {
            Ok(v) => v,
            Err(e) => {
                return Err(e);
            },
        };
        let (taken, errs) = match self.take_named(
            scope_id,
            &info.param_table,
            &args.named,
            taken,
            errs,
        ) {
            Ok(v) => v,
            Err(e) => {
                return Err(e);
            },
        };
        let (taken, errs) = match self.take_defaults(
            scope_id,
            &info.param_table,
            line,
            taken,
            errs,
        ) {
            Ok(v) => v,
            Err(e) => {
                return Err(e);
            },
        };
        if !errs.is_empty() {
            return Err(Stop::Errors(errs));
        }
        match taipe {
            Type::Function { ret: result, params: _ } => {
                Ok(
                    Context::make(
                        false,
                        (result).copy(),
                        Value::DirectCall {
                            line_info: line,
                            fun_scope_id: scope_id.copy(),
                            args: contexts_of(&taken),
                        },
                    ),
                )
            },
            _ => {
                Err(Stop::Unsupported("probably some analyzer bug".to_owned()))
            },
        }
    }

    /// Gives the arguments without a name to the parameters in their order.
    #[verifier::loop_isolation(false)]
    pub(crate) fn take_positional(
        &self,
        params: &Table<ScopeId>,
        pos: &Vec<ArgInfo>,
        taken: Table<ArgInfo>,
        errs: CompileError,
    ) -> (r: Result<(Table<ArgInfo>, CompileError), Stop>)
        requires
            self@.wf(),
        ensures
            outcome(r) == self@.take_positional(params@, views(pos@), taken@, errs@, 0),
    {
        broadcast use group_analyzer;

        proof {
            reveal(AnalyzerView::take_positional);
            reveal(Context::model);
            reveal(Value::model);
        }
        let ghost goal = self@.take_positional(params@, views(pos@), taken@, errs@, 0);
        let mut taken: Table<ArgInfo> = taken;
        let mut errs: CompileError = errs;
        let mut i: usize = 0;
        while i < pos.len()
            invariant
                i <= pos@.len(),
                goal == self@.take_positional(params@, views(pos@), taken@, errs@, i as int),
                self@.wf(),
            decreases pos@.len() - i,
        {
            proof {
                reveal(AnalyzerView::take_positional);
                reveal(Context::model);
                reveal(Value::model);
            }
            let Some((name, param_id)) = entry_at(params, i) else {
                return Err(Stop::Unsupported("too many arguments".to_owned()));
            };
            let param = match self.param_info(&param_id) {
                Ok(v) => v,
                Err(e) => {
                    return Err(e);
                },
            };
            match self.resolve_assign(
                Some((param.taipe.copy(), param.line_info)),
                None,
                Some((pos[i].ctx.copy(), pos[i].line)),
            ) {
                Ok(ctx) => {
                    taken = with_entry(
                        taken,
                        name,
                        ArgInfo {
                            ctx: Context::make(true, ctx.taipe, ctx.value),
                            line: pos[i].line,
                        },
                    );
                    i = i + 1;
                },
                Err(Stop::Errors(err)) => {
                    taken = with_entry(
                        taken,
                        name,
                        ArgInfo {
                            ctx: Context::make(true, param.taipe, Value::from_nil()),
                            line: pos[i].line,
                        },
                    );
                    errs = errs.chain(err);
                    i = i + 1;
                },
                Err(e) => {
                    return Err(e);
                },
            }
        }
        Ok((taken, errs))
    }

    /// The reports with one more on an argument that was already given by its position.
    pub(crate) fn twice_given(
        &self,
        taken: &Table<ArgInfo>,
        name: &str,
        line: LineInfo,
        errs: CompileError,
    ) -> (r: CompileError)
        requires
            self@.wf(),
        ensures
            r@ == self@.twice_given(taken@, name@, line@, errs@),
    {
        broadcast use group_analyzer;

        proof {
            reveal(AnalyzerView::twice_given);
        }
        match taken.find(name) {
            Some(previous) => {
                errs.chain(self.make_err("duplicate named argument", line)).chain(
                    self.make_note("previous positional argument is here", previous.line),
                )
            },
            None => {
                errs
            },
        }
    }

    /// Gives the arguments with a name to their parameters.
    #[verifier::loop_isolation(false)]
    pub(crate) fn take_named(
        &self,
        scope_id: &ScopeId,
        params: &Table<ScopeId>,
        named: &Table<NamedArg>,
        taken: Table<ArgInfo>,
        errs: CompileError,
    ) -> (r: Result<(Table<ArgInfo>, CompileError), Stop>)
        requires
            self@.wf(),
        ensures
            outcome(r) == self@.take_named(scope_id@, params@, named@, taken@, errs@, 0),
    {
        broadcast use group_analyzer;

        proof {
            reveal(AnalyzerView::take_named);
            reveal(Context::model);
            reveal(Value::model);
        }
        let ghost goal = self@.take_named(scope_id@, params@, named@, taken@, errs@, 0);
        let mut taken: Table<ArgInfo> = taken;
        let mut errs: CompileError = errs;
        let mut i: usize = 0;
        while i < named.values.len()
            invariant
                i <= named.values@.len(),
                goal == self@.take_named(scope_id@, params@, named@, taken@, errs@, i as int),
                self@.wf(),
            decreases named.values@.len() - i,
        {
            proof {
                reveal(AnalyzerView::take_named);
                reveal(Context::model);
                reveal(Value::model);
            }
            let Some((name, arg)) = named_at(named, i) else {
                return Err(Stop::Unsupported("probably some analyzer bug".to_owned()));
            };
            let found = match self.find_child(scope_id, &name) {
                Ok(v) => v,
                Err(e) => {
                    return Err(e);
                },
            };
            match found {
                None => {
                    return Err(
                        Stop::Errors(
                            CompileError::pair(
                                self.make_err(
                                    &join2(&join2("unknown argument: '", &name), "'"),
                                    arg.line,
                                ),
                                self.make_did_you_mean_help(&name, &names_of(params)),
                            ),
                        ),
                    );
                },
                Some(param_id) => {
                    let param = match self.param_info(&param_id) {
                        Ok(v) => v,
                        Err(e) => {
                            return Err(e);
                        },
                    };
                    match self.resolve_assign(
                        Some((param.taipe.copy(), param.line_info)),
                        None,
                        Some((arg.ctx.copy(), arg.expr_line)),
                    ) {
                        Ok(ctx) => {
                            let more = self.twice_given(&taken, &name, arg.line, errs);
                            taken = with_entry(
                                taken,
                                name,
                                ArgInfo {
                                    ctx: Context::make(true, ctx.taipe, ctx.value),
                                    line: arg.expr_line,
                                },
                            );
                            errs = more;
                            i = i + 1;
                        },
                        Err(Stop::Errors(err)) => {
                            let more = self.twice_given(&taken, &name, arg.line, errs.chain(err));
                            taken = with_entry(
                                taken,
                                name,
                                ArgInfo {
                                    ctx: Context::make(true, param.taipe, Value::from_nil()),
                                    line: arg.expr_line,
                                },
                            );
                            errs = more;
                            i = i + 1;
                        },
                        Err(e) => {
                            return Err(e);
                        },
                    }
                },
            }
        }
        Ok((taken, errs))
    }

    /// Gives the parameters without an argument their default values.
    #[verifier::loop_isolation(false)]
    pub(crate) fn take_defaults(
        &self,
        scope_id: &ScopeId,
        params: &Table<ScopeId>,
        line: LineInfo,
        taken: Table<ArgInfo>,
        errs: CompileError,
    ) -> (r: Result<(Table<ArgInfo>, CompileError), Stop>)
        requires
            self@.wf(),
        ensures
            outcome(r) == self@.take_defaults(scope_id@, params@, line@, taken@, errs@, 0),
    {
        broadcast use group_analyzer;

        proof {
            reveal(AnalyzerView::take_defaults);
        }
        let ghost goal = self@.take_defaults(scope_id@, params@, line@, taken@, errs@, 0);
        let mut taken: Table<ArgInfo> = taken;
        let mut errs: CompileError = errs;
        let mut i: usize = 0;
        while i < params.values.len()
            invariant
                i <= params.values@.len(),
                goal == self@.take_defaults(scope_id@, params@, line@, taken@, errs@, i as int),
                self@.wf(),
            decreases params.values@.len() - i,
        {
            proof {
                reveal(AnalyzerView::take_defaults);
            }
            let Some((name, _)) = entry_at(params, i) else {
                return Err(Stop::Unsupported("probably some analyzer bug".to_owned()));
            };
            let found = match self.find_child(scope_id, &name) {
                Ok(v) => v,
                Err(e) => {
                    return Err(e);
                },
            };
            match found {
                None => {
                    return Err(Stop::Unsupported("probably some analyzer bug".to_owned()));
                },
                Some(param_id) => {
                    let param = match self.param_info(&param_id) {
                        Ok(v) => v,
                        Err(e) => {
                            return Err(e);
                        },
                    };
                    if taken.has(&name) {
                        i = i + 1;
                        continue;
                    }
                    match param.default {
                        Some(value) => {
                            taken = with_entry(
                                taken,
                                name,
                                ArgInfo { ctx: Context::make(true, param.taipe, value), line },
                            );
                            i = i + 1;
                        },
                        None => {
                            errs = errs.chain(
                                self.make_err(
                                    &join2(
                                        &join2("value of argument '", &name),
                                        "' is not provided",
                                    ),
                                    line,
                                ),
                            ).chain(self.make_note("declared here", param.line_info));
                            i = i + 1;
                        },
                    }
                },
            }
        }
        Ok((taken, errs))
    }
}

} // verus!
