use vstd::arithmetic::power2::is_pow2;
use vstd::prelude::*;

use crate::analyzer::analysis::is_size;
use crate::analyzer::laws::lemma_whole_layout;
use crate::analyzer::AnalyzerView;
use crate::common::{Layout, Span, StopView};
use crate::context::TypeView;
use crate::scope::{FieldDataView, FieldInfoView, PayloadView, ScopeIdView};
use crate::table::TableView;

verus! {

/// Whether the alignment is a power of two and the size is a multiple of it.
pub open spec fn is_aligned(layout: Layout) -> bool {
    is_pow2(layout.alignment as int) && layout.size % layout.alignment == 0
}

/// Whether two states of the analysis are for the same machine.
pub open spec fn same_machine(s: AnalyzerView, t: AnalyzerView) -> bool {
    s.settings == t.settings
}

proof fn lemma_small_powers()
    ensures
        is_pow2(1),
        is_pow2(2),
        is_pow2(4),
        is_pow2(8),
        is_pow2(16),
{
    reveal_with_fuel(is_pow2, 6);
}

proof fn lemma_size_aligned(bytes: usize)
    requires
        is_size(bytes),
    ensures
        is_pow2(bytes as int),
        bytes % bytes == 0,
        (bytes * 2) % (bytes as int) == 0,
{
    lemma_small_powers();
    if bytes == 1 {
    } else if bytes == 2 {
    } else if bytes == 4 {
    } else if bytes == 8 {
    } else {
        assert(bytes == 16);
    }
}

proof fn lemma_power_positive(n: int)
    requires
        is_pow2(n),
    ensures
        n > 0,
{
    reveal(is_pow2);
}

proof fn lemma_repeated(count: int, size: int, alignment: int)
    requires
        alignment > 0,
        size % alignment == 0,
    ensures
        (count * size) % alignment == 0,
{
    vstd::arithmetic::div_mod::lemma_fundamental_div_mod(size, alignment);
    let q = size / alignment;
    assert(count * size == (count * q) * alignment) by (nonlinear_arith)
        requires
            size == alignment * q,
    ;
    vstd::arithmetic::div_mod::lemma_mod_multiples_basic(count * q, alignment);
}

proof fn lemma_layout(s: AnalyzerView, taipe: TypeView, line: Span, fuel: int)
    requires
        is_size(s.pointer_size()),
    ensures
        same_machine(s, s.resolve_layout(taipe, line, fuel).0),
        s.resolve_layout(taipe, line, fuel).1 matches Ok(layout) ==> is_aligned(layout),
    decreases fuel, 1nat, 0int,
{
    reveal(AnalyzerView::resolve_layout);
    reveal(AnalyzerView::resolve_layout_scope);
    reveal(AnalyzerView::resolve_layout_tuple);
    lemma_small_powers();
    lemma_size_aligned(s.pointer_size());
    if fuel > 0 {
        match taipe {
            TypeView::Const(inner) => {
                lemma_layout(s, *inner, line, fuel - 1);
            },
            TypeView::Basic(scope_id) => {
                lemma_scope_layout(s, scope_id, fuel - 1);
            },
            TypeView::Array { count, taipe: item } => {
                lemma_layout(s, *item, line, fuel - 1);
                if let Ok(layout) = s.resolve_layout(*item, line, fuel - 1).1 {
                    lemma_power_positive(layout.alignment as int);
                    lemma_repeated(count as int, layout.size as int, layout.alignment as int);
                    assert(s.resolve_layout(taipe, line, fuel).1 matches Ok(l) ==> l.size == count
                        * layout.size && l.alignment == layout.alignment);
                }
            },
            TypeView::Fat(_) | TypeView::Pointer(_) | TypeView::Function { .. } => {},
            TypeView::Tuple(items) => {
                lemma_tuple_layout(s, items, line, 0, 1, fuel - 1, 0);
            },
            _ => {
                lemma_size_aligned(1);
                lemma_size_aligned(2);
                lemma_size_aligned(4);
                lemma_size_aligned(8);
                lemma_size_aligned(16);
                assert(s.resolve_layout(taipe, line, fuel).1 matches Ok(l) ==> is_size(l.size)
                    && l.size == l.alignment);
            },
        }
    }
}

proof fn lemma_tuple_layout(
    s: AnalyzerView,
    items: Seq<TypeView>,
    line: Span,
    offset: usize,
    alignment: usize,
    fuel: int,
    i: int,
)
    requires
        is_size(s.pointer_size()),
        is_pow2(alignment as int),
    ensures
        same_machine(s, s.resolve_layout_tuple(items, line, offset, alignment, fuel, i).0),
        s.resolve_layout_tuple(items, line, offset, alignment, fuel, i).1 matches Ok(
            layout,
        ) ==> is_aligned(layout),
    decreases fuel, 2nat, items.len() - i,
{
    reveal(AnalyzerView::resolve_layout_tuple);
    reveal(AnalyzerView::resolve_layout);
    reveal(AnalyzerView::larger);
    if i < 0 || i >= items.len() {
        lemma_whole_layout(s, offset, alignment);
    } else {
        lemma_layout(s, items[i], line, fuel);
        let (t, item) = s.resolve_layout(items[i], line, fuel);
        if let Ok(layout) = item {
            if let Ok(end) = t.advance(offset, layout) {
                let most = t.larger(alignment, layout.alignment);
                lemma_tuple_layout(t, items, line, end, most, fuel, i + 1);
            }
        }
    }
}

proof fn lemma_scope_layout(s: AnalyzerView, scope_id: ScopeIdView, fuel: int)
    requires
        is_size(s.pointer_size()),
    ensures
        same_machine(s, s.resolve_layout_scope(scope_id, fuel).0),
        s.resolve_layout_scope(scope_id, fuel).1 matches Ok(layout) ==> is_aligned(layout),
    decreases fuel, 1nat, 0int,
{
    reveal(AnalyzerView::resolve_layout_scope);
    reveal(AnalyzerView::resolve_layout_field);
    if fuel > 0 {
        if let Ok(scope) = s.get_scope(scope_id) {
            if let PayloadView::Compound(compound) = scope.payload {
                let field = compound.field;
                let t = s.set_payload(scope_id, PayloadView::LayoutResolutionInProgress);
                lemma_field_layout(t, field, 0, TableView::empty(), field, fuel - 1);
            }
        }
    }
}

proof fn lemma_field_layout(
    s: AnalyzerView,
    field: FieldInfoView,
    offset: usize,
    offsets: TableView<FieldDataView>,
    top: FieldInfoView,
    fuel: int,
)
    requires
        is_size(s.pointer_size()),
    ensures
        same_machine(s, s.resolve_layout_field(field, offset, offsets, top, fuel).0),
        s.resolve_layout_field(field, offset, offsets, top, fuel).1 matches Ok((layout, _)) ==> {
            &&& is_pow2(layout.alignment as int)
            &&& offset == 0 ==> is_aligned(layout)
        },
    decreases fuel, 1nat, 0int,
{
    reveal(AnalyzerView::resolve_layout_field);
    reveal(AnalyzerView::resolve_layout_struct);
    reveal(AnalyzerView::resolve_layout_union);
    reveal(AnalyzerView::resolve_layout);
    lemma_small_powers();
    if fuel > 0 {
        match field {
            FieldInfoView::Struct(fields) => {
                lemma_struct_layout(s, fields, offset, offset, 1, offsets, top, fuel - 1, 0);
            },
            FieldInfoView::Union(fields) => {
                lemma_union_layout(s, fields, offset, 0, 1, offsets, top, fuel - 1, 0);
            },
            FieldInfoView::Field { file_path: _, line_info: _, name, taipe } => {
                if let Some(line) = top.get_line_info_of(name) {
                    lemma_layout(s, taipe, line, fuel - 1);
                }
            },
        }
    }
}

proof fn lemma_struct_layout(
    s: AnalyzerView,
    fields: Seq<FieldInfoView>,
    start: usize,
    offset: usize,
    alignment: usize,
    offsets: TableView<FieldDataView>,
    top: FieldInfoView,
    fuel: int,
    i: int,
)
    requires
        is_size(s.pointer_size()),
        is_pow2(alignment as int),
    ensures
        ({
            let r = s.resolve_layout_struct(
                fields,
                start,
                offset,
                alignment,
                offsets,
                top,
                fuel,
                i,
            );
            &&& same_machine(s, r.0)
            &&& r.1 matches Ok((layout, _)) ==> is_pow2(layout.alignment as int) && (start == 0
                ==> is_aligned(layout))
        }),
    decreases fuel, 2nat, fields.len() - i,
{
    reveal(AnalyzerView::resolve_layout_struct);
    reveal(AnalyzerView::resolve_layout_field);
    reveal(AnalyzerView::larger);
    if i < 0 || i >= fields.len() {
        lemma_whole_layout(s, offset, alignment);
        reveal(AnalyzerView::whole_layout);
    } else {
        lemma_field_layout(s, fields[i], offset, offsets, top, fuel);
        let (t, item) = s.resolve_layout_field(fields[i], offset, offsets, top, fuel);
        if let Ok((layout, table)) = item {
            if let Ok(end) = t.advance(offset, layout) {
                let most = t.larger(alignment, layout.alignment);
                lemma_struct_layout(t, fields, start, end, most, table, top, fuel, i + 1);
            }
        }
    }
}

proof fn lemma_union_layout(
    s: AnalyzerView,
    fields: Seq<FieldInfoView>,
    offset: usize,
    size: usize,
    alignment: usize,
    offsets: TableView<FieldDataView>,
    top: FieldInfoView,
    fuel: int,
    i: int,
)
    requires
        is_size(s.pointer_size()),
        is_pow2(alignment as int),
    ensures
        ({
            let r = s.resolve_layout_union(fields, offset, size, alignment, offsets, top, fuel, i);
            &&& same_machine(s, r.0)
            &&& r.1 matches Ok((layout, _)) ==> is_aligned(layout)
        }),
    decreases fuel, 2nat, fields.len() - i,
{
    reveal(AnalyzerView::resolve_layout_union);
    reveal(AnalyzerView::resolve_layout_field);
    reveal(AnalyzerView::larger);
    if i < 0 || i >= fields.len() {
        lemma_whole_layout(s, size, alignment);
    } else {
        lemma_field_layout(s, fields[i], offset, offsets, top, fuel);
        let (t, item) = s.resolve_layout_field(fields[i], offset, offsets, top, fuel);
        if let Ok((layout, table)) = item {
            let largest = t.larger(size, layout.size);
            let most = t.larger(alignment, layout.alignment);
            lemma_union_layout(t, fields, offset, largest, most, table, top, fuel, i + 1);
        }
    }
}

/// The alignment of every type is a power of two, and its size is a multiple of the alignment.
pub proof fn law_layout(s: AnalyzerView, taipe: TypeView, line: Span, fuel: int)
    requires
        s.wf(),
    ensures
        s.resolve_layout(taipe, line, fuel).1 matches Ok(layout) ==> is_aligned(layout),
{
    reveal(AnalyzerView::wf);
    lemma_layout(s, taipe, line, fuel);
}

} // verus!
