use vstd::prelude::*;

use crate::analyzer::AnalyzerView;
use crate::common::Span;
use crate::context::{nth_value, ContextView, TypeView, ValueView};
use crate::scope::{PayloadView, ScopeIdView};

verus! {

/// Whether nothing is left to compute of a value.
pub open spec fn is_evaluated(value: ValueView) -> bool {
    value is Imm || value is Array || value is Tuple
}

proof fn lemma_array_evaluated(
    s: AnalyzerView,
    item: TypeView,
    values: Seq<ValueView>,
    folded: Seq<ValueView>,
    fuel: int,
    i: int,
)
    ensures
        s.compeval_array(item, values, folded, fuel, i) matches Ok(value) ==> value is Array,
    decreases values.len() - i,
{
    reveal(AnalyzerView::compeval_array);
    reveal(AnalyzerView::compeval_trivial_impl);
    if 0 <= i < values.len() {
        if let Ok(ctx) = s.compeval_trivial_impl(false, item, values[i], fuel) {
            lemma_array_evaluated(s, item, values, folded.push(ctx.value), fuel, i + 1);
        }
    }
}

proof fn lemma_tuple_evaluated(
    s: AnalyzerView,
    types: Seq<TypeView>,
    values: Seq<ValueView>,
    folded: Seq<ValueView>,
    fuel: int,
    i: int,
)
    ensures
        s.compeval_tuple(types, values, folded, fuel, i) matches Ok(value) ==> value is Tuple,
    decreases values.len() - i,
{
    reveal(AnalyzerView::compeval_tuple);
    reveal(AnalyzerView::compeval_trivial_impl);
    if 0 <= i < values.len() {
        if let Ok(ctx) = s.compeval_trivial_impl(false, types[i], values[i], fuel) {
            lemma_tuple_evaluated(s, types, values, folded.push(ctx.value), fuel, i + 1);
        }
    }
}

proof fn lemma_block_evaluated(s: AnalyzerView, ctxs: Seq<ContextView>, fuel: int, i: int)
    ensures
        s.compeval_block(ctxs, fuel, i) matches Ok(ctx) ==> is_evaluated(ctx.value),
    decreases fuel, 4nat, ctxs.len() - i,
{
    reveal(AnalyzerView::compeval_block);
    reveal(AnalyzerView::compeval_context);
    if 0 <= i < ctxs.len() {
        lemma_context_evaluated(s, ctxs[i], fuel);
        lemma_block_evaluated(s, ctxs, fuel, i + 1);
    }
}

proof fn lemma_context_evaluated(s: AnalyzerView, ctx: ContextView, fuel: int)
    ensures
        s.compeval_context(ctx, fuel) matches Ok(r) ==> is_evaluated(r.value),
    decreases fuel, 2nat, 0int,
{
    reveal(AnalyzerView::compeval_context);
    reveal(AnalyzerView::compeval_trivial_impl);
    lemma_value_evaluated(s, ctx.is_lvalue, ctx.taipe, ctx.value, fuel);
}

proof fn lemma_global_evaluated(s: AnalyzerView, line: Span, scope_id: ScopeIdView, fuel: int)
    ensures
        s.global_value(line, scope_id, fuel) matches Ok(r) ==> is_evaluated(r.value),
    decreases fuel, 3nat, 0int,
{
    reveal(AnalyzerView::global_value);
    reveal(AnalyzerView::compeval_context);
    if let Ok(scope) = s.get_scope(scope_id) {
        if let PayloadView::Global(ctx) = scope.payload {
            lemma_context_evaluated(s, ctx, fuel);
        }
    }
}

proof fn lemma_index_evaluated(
    s: AnalyzerView,
    is_lvalue: bool,
    line: Span,
    lhs: ContextView,
    index: ContextView,
    fuel: int,
)
    ensures
        s.compeval_index(is_lvalue, line, lhs, index, fuel) matches Ok(r) ==> is_evaluated(
            r.value,
        ),
    decreases fuel, 4nat, 0int,
{
    reveal(AnalyzerView::compeval_index);
    reveal(AnalyzerView::compeval_pair);
    reveal(AnalyzerView::compeval_trivial_impl);
    if let Ok((array, place)) = s.compeval_pair(lhs, index, fuel) {
        if let ValueView::Imm(imm) = place.value {
            if let Some(i) = imm.to_usize() {
                match array.value {
                    ValueView::Array(values) => {
                        if let (Ok(item), Some(value)) = (
                            s.item_type(array.taipe),
                            nth_value(values, i),
                        ) {
                            lemma_value_evaluated(s, is_lvalue, item, value, fuel);
                        }
                    },
                    ValueView::Tuple(values) => {
                        if let (Ok(item), Some(value)) = (
                            s.tuple_type(array.taipe, i),
                            nth_value(values, i),
                        ) {
                            lemma_value_evaluated(s, is_lvalue, item, value, fuel);
                        }
                    },
                    _ => {},
                }
            }
        }
    }
}

proof fn lemma_value_evaluated(
    s: AnalyzerView,
    is_lvalue: bool,
    taipe: TypeView,
    value: ValueView,
    fuel: int,
)
    ensures
        s.compeval_trivial_impl(is_lvalue, taipe, value, fuel) matches Ok(r) ==> is_evaluated(
            r.value,
        ),
    decreases fuel, 1nat, 0int,
{
    reveal(AnalyzerView::compeval_trivial_impl);
    reveal(AnalyzerView::compeval_context);
    reveal(AnalyzerView::compeval_pair);
    reveal(AnalyzerView::compeval_array);
    reveal(AnalyzerView::compeval_tuple);
    reveal(AnalyzerView::compeval_block);
    reveal(AnalyzerView::compeval_index);
    reveal(AnalyzerView::compeval_logic);
    reveal(AnalyzerView::global_value);
    if fuel > 0 {
        match value {
            ValueView::Array(values) => {
                if let TypeView::Array { count: _, taipe: item } = taipe {
                    lemma_array_evaluated(s, *item, values, seq![], fuel - 1, 0);
                }
            },
            ValueView::Tuple(values) => {
                if let TypeView::Tuple(types) = taipe {
                    lemma_tuple_evaluated(s, types, values, seq![], fuel - 1, 0);
                }
            },
            ValueView::GetGlobal { line_info, scope_id } => {
                lemma_global_evaluated(s, line_info, scope_id, fuel - 1);
            },
            ValueView::LogicAnd { .. } | ValueView::LogicOr { .. } => {},
            ValueView::Index { line_info, lhs, index } => {
                lemma_index_evaluated(s, is_lvalue, line_info, *lhs, *index, fuel - 1);
            },
            ValueView::IfElse { line_info: _, cond: _, then_ctx, else_ctx } => {
                lemma_context_evaluated(s, *then_ctx, fuel - 1);
                lemma_context_evaluated(s, *else_ctx, fuel - 1);
            },
            ValueView::Block(ctxs) => {
                lemma_block_evaluated(s, ctxs, fuel - 1, 0);
            },
            ValueView::Cast(from) => {
                reveal(AnalyzerView::fold_cast);
                lemma_context_evaluated(s, *from, fuel - 1);
            },
            _ => {
                reveal(AnalyzerView::fold_negate);
                reveal(AnalyzerView::fold_flip_bits);
                reveal(AnalyzerView::fold_arithmetic);
                reveal(AnalyzerView::fold_shift);
                reveal(AnalyzerView::fold_bits);
            },
        }
    }
}

/// What an evaluation gives is an immediate value, an array or a tuple: nothing is left to
/// compute.
pub proof fn law_evaluated(s: AnalyzerView, ctx: ContextView)
    ensures
        s.compeval_trivial(ctx) matches Ok(r) ==> is_evaluated(r.value),
{
    reveal(AnalyzerView::compeval_trivial);
    lemma_context_evaluated(s, ctx, 0xffff_ffff_ffff_ffff);
}

/// The zero value of an array type is an array of as many values as the type says.
pub proof fn law_zero_of_array(s: AnalyzerView, taipe: TypeView, line: Span)
    requires
        taipe is Array,
    ensures
        s.get_zero_value(taipe, line) matches Ok(ctx) ==> {
            &&& ctx.taipe == taipe
            &&& ctx.value matches ValueView::Array(values)
            &&& values.len() == taipe->Array_count
        },
{
    reveal(AnalyzerView::get_zero_value);
    reveal(AnalyzerView::get_plain_value);
}

} // verus!
