use vstd::arithmetic::power::pow;
use vstd::prelude::*;

use crate::analyzer::laws::{law_advance, law_padded};
use crate::analyzer::AnalyzerView;
use crate::common::{Layout, Span, StopView};
use crate::context::{kind_max, kind_min, TypeView};
use crate::scope::{FieldDataView, FieldInfoView, PayloadView, ScopeIdView};
use crate::table::{entered, law_table_insert, TableView};

verus! {

/// Whether a layout has just enough bytes of eight bits for the values of a type that stands for
/// itself, and is aligned by its size. Other types can have any layout.
pub open spec fn has_layout(taipe: TypeView, layout: Layout) -> bool {
    &&& taipe.int_kind() matches Some(kind) ==> {
        &&& pow(256, layout.size as nat) == kind_max(kind) - kind_min(kind) + 1
        &&& layout.alignment == layout.size
    }
    &&& taipe is Bool || taipe is Char ==> layout.size == 1 && layout.alignment == 1
    &&& taipe is Float32 ==> layout.size == 4 && layout.alignment == 4
    &&& taipe is Float64 ==> layout.size == 8 && layout.alignment == 8
}

proof fn lemma_powers()
    ensures
        pow(256, 1) == 0x100,
        pow(256, 2) == 0x1_0000,
        pow(256, 4) == 0x1_0000_0000,
        pow(256, 8) == 0x1_0000_0000_0000_0000,
        pow(256, 16) == 0x1_0000_0000_0000_0000_0000_0000_0000_0000,
{
    reveal_with_fuel(pow, 18);
}

/// A type that stands for itself has the layout of its values, and the analysis stays as it is.
/// Pointers and functions are as large as the machine says, a pointer with a length is twice as
/// large, an array is as large as all of its items, and what is constant changes nothing.
pub proof fn law_type_layout(s: AnalyzerView, taipe: TypeView, line: Span, fuel: int)
    requires
        fuel > 0,
    ensures
        s.resolve_layout(taipe, line, fuel).1 matches Ok(layout) ==> has_layout(taipe, layout),
        taipe.int_kind() is Some || taipe is Bool || taipe is Char || taipe is Float32 || taipe
            is Float64 ==> s.resolve_layout(taipe, line, fuel).1 is Ok && s.resolve_layout(
            taipe,
            line,
            fuel,
        ).0 == s,
        taipe is Pointer || taipe is Function ==> s.resolve_layout(taipe, line, fuel) == (
            s,
            Ok::<_, StopView>(
                Layout { size: s.settings.pointer_size, alignment: s.settings.pointer_size },
            ),
        ),
        taipe is Fat ==> (s.resolve_layout(taipe, line, fuel).1 matches Ok(layout) ==> layout.size
            == 2 * s.settings.pointer_size && layout.alignment == s.settings.pointer_size),
        taipe matches TypeView::Const(inner) ==> s.resolve_layout(taipe, line, fuel)
            == s.resolve_layout(*inner, line, fuel - 1),
        taipe matches TypeView::Array { count, taipe: item } ==> (s.resolve_layout(
            taipe,
            line,
            fuel,
        ).1 matches Ok(layout) ==> (s.resolve_layout(*item, line, fuel - 1).1 matches Ok(one)
            && layout.size == count * one.size && layout.alignment == one.alignment)),
{
    reveal(AnalyzerView::resolve_layout);
    lemma_powers();
}

/// Whether all fields are plain ones, with different names.
pub open spec fn is_flat(fields: Seq<FieldInfoView>) -> bool {
    &&& forall|k: int| 0 <= k < fields.len() ==> (#[trigger] fields[k]) is Field
    &&& forall|j: int, k: int|
        0 <= j < k < fields.len() ==> (#[trigger] fields[j])->Field_name != (
        #[trigger] fields[k])->Field_name
}

/// Whether what is recorded of a field is its name, its type and the layout of that type.
pub open spec fn is_recorded(field: FieldInfoView, data: Option<FieldDataView>) -> bool {
    &&& data is Some
    &&& data->0.name == field->Field_name
    &&& data->0.taipe == field->Field_taipe
    &&& data->0.line_info == field->Field_line_info
    &&& data->0.file_path == field->Field_file_path
    &&& has_layout(
        field->Field_taipe,
        Layout { size: data->0.size, alignment: data->0.alignment },
    )
}

proof fn lemma_plain_field(
    s: AnalyzerView,
    field: FieldInfoView,
    offset: usize,
    offsets: TableView<FieldDataView>,
    top: FieldInfoView,
    fuel: int,
)
    requires
        field is Field,
        offsets.wf(),
    ensures
        s.resolve_layout_field(field, offset, offsets, top, fuel).1 matches Ok((layout, all)) ==> {
            let data = all.get(field->Field_name);
            &&& all.wf()
            &&& is_recorded(field, data)
            &&& data->0.offset == offset
            &&& data->0.size == layout.size
            &&& data->0.alignment == layout.alignment
            &&& forall|other: Seq<char>|
                other != field->Field_name ==> #[trigger] all.get(other) == offsets.get(other)
        },
{
    reveal(AnalyzerView::resolve_layout_field);
    reveal(AnalyzerView::resolve_layout);
    if fuel > 1 {
        if let Some(line) = top.get_line_info_of(field->Field_name) {
            let (t, r) = s.resolve_layout(field->Field_taipe, line, fuel - 1);
            law_type_layout(s, field->Field_taipe, line, fuel - 1);
            if let Ok(layout) = r {
                let data = FieldDataView {
                    name: field->Field_name,
                    taipe: field->Field_taipe,
                    file_path: field->Field_file_path,
                    line_info: field->Field_line_info,
                    offset,
                    size: layout.size,
                    alignment: layout.alignment,
                };
                let all = entered(offsets, field->Field_name, data);
                law_table_insert(offsets, field->Field_name, data, field->Field_name);
                assert forall|other: Seq<char>|
                    other != field->Field_name implies #[trigger] all.get(other) == offsets.get(
                    other,
                ) by {
                    law_table_insert(offsets, field->Field_name, data, other);
                }
            }
        }
    }
}

proof fn lemma_whole(s: AnalyzerView, start: usize, end: usize, alignment: usize)
    requires
        start <= end,
    ensures
        s.whole_layout(start, end, alignment) matches Ok(layout) ==> {
            &&& layout.alignment == alignment
            &&& 0 < layout.size
            &&& end <= start + layout.size
            &&& start + layout.size <= end + alignment
            &&& start + layout.size == end + alignment ==> end == start
        },
{
    reveal(AnalyzerView::whole_layout);
    law_padded(s, end, alignment);
}

/// The fields of a struct stand one after the other in their order: the first one stands at the
/// begin, none overlaps another one, and no more than the padding of a field stands between two.
/// All of them are within the struct, whose alignment is the largest of theirs. What is recorded
/// of each of them is its name, its type and the layout of its type.
#[verifier::spinoff_prover]
#[verifier::rlimit(40)]
pub proof fn law_struct_fields(
    s: AnalyzerView,
    fields: Seq<FieldInfoView>,
    start: usize,
    offset: usize,
    alignment: usize,
    offsets: TableView<FieldDataView>,
    top: FieldInfoView,
    fuel: int,
    i: int,
)
    requires
        0 <= i <= fields.len(),
        is_flat(fields),
        start <= offset,
        offsets.wf(),
    ensures
        s.resolve_layout_struct(fields, start, offset, alignment, offsets, top, fuel, i).1 matches
            Ok((layout, all)) ==> {
            &&& all.wf()
            &&& offset <= start + layout.size
            &&& alignment <= layout.alignment
            &&& layout.alignment == alignment || exists|k: int|
                i <= k < fields.len() && layout.alignment == all.get(
                    (#[trigger] fields[k])->Field_name,
                )->0.alignment
            &&& i < fields.len() ==> all.get(fields[i]->Field_name)->0.offset == offset
            &&& forall|k: int|
                i <= k < fields.len() ==> {
                    let data = all.get((#[trigger] fields[k])->Field_name);
                    &&& is_recorded(fields[k], data)
                    &&& data->0.alignment <= layout.alignment
                    &&& offset <= data->0.offset
                    &&& data->0.offset + data->0.size <= start + layout.size
                }
            &&& forall|k: int|
                i < k < fields.len() ==> {
                    let before = all.get(fields[k - 1]->Field_name)->0;
                    let data = all.get((#[trigger] fields[k])->Field_name)->0;
                    &&& before.offset + before.size <= data.offset
                    &&& data.offset < before.offset + before.size + before.alignment
                    &&& data.offset % before.alignment == 0
                }
            &&& i < fields.len() ==> {
                let last = all.get(fields.last()->Field_name)->0;
                start + layout.size < last.offset + last.size + last.alignment + layout.alignment
            }
            &&& forall|other: Seq<char>|
                (forall|k: int| i <= k < fields.len() ==> (#[trigger] fields[k])->Field_name
                    != other) ==> #[trigger] all.get(other) == offsets.get(other)
        },
    decreases fields.len() - i,
{
    reveal(AnalyzerView::resolve_layout_struct);
    reveal(AnalyzerView::resolve_layout_field);
    reveal(AnalyzerView::larger);
    if i >= fields.len() {
        lemma_whole(s, start, offset, alignment);
    } else {
        lemma_plain_field(s, fields[i], offset, offsets, top, fuel);
        let (t, r) = s.resolve_layout_field(fields[i], offset, offsets, top, fuel);
        if let Ok((layout, table)) = r {
            law_advance(t, offset, layout);
            if let Ok(end) = t.advance(offset, layout) {
                let most = t.larger(alignment, layout.alignment);
                law_struct_fields(t, fields, start, end, most, table, top, fuel, i + 1);
                let whole = t.resolve_layout_struct(
                    fields,
                    start,
                    end,
                    most,
                    table,
                    top,
                    fuel,
                    i + 1,
                );
                if let Ok((total, all)) = whole.1 {
                    let name = fields[i]->Field_name;
                    assert(all.get(name) == table.get(name));
                    if i + 1 == fields.len() {
                        assert(t.whole_layout(start, end, most) == Ok::<_, StopView>(total));
                        lemma_whole(t, start, end, most);
                    }
                    assert forall|other: Seq<char>|
                        (forall|k: int| i <= k < fields.len() ==> (#[trigger] fields[k])->Field_name
                            != other) implies #[trigger] all.get(other) == offsets.get(other) by {
                        assert(fields[i]->Field_name != other);
                        assert(all.get(other) == table.get(other));
                    }
                    if total.alignment == most && most == layout.alignment {
                        assert(all.get(fields[i]->Field_name)->0.alignment == total.alignment);
                    }
                }
            }
        }
    }
}

/// The fields of a union all stand at the same place. All of them are within the union, which is
/// no larger than the largest of them needs with its padding, and whose alignment is the largest
/// of theirs.
#[verifier::spinoff_prover]
#[verifier::rlimit(40)]
pub proof fn law_union_fields(
    s: AnalyzerView,
    fields: Seq<FieldInfoView>,
    offset: usize,
    size: usize,
    alignment: usize,
    offsets: TableView<FieldDataView>,
    top: FieldInfoView,
    fuel: int,
    i: int,
)
    requires
        0 <= i <= fields.len(),
        is_flat(fields),
        offsets.wf(),
    ensures
        s.resolve_layout_union(fields, offset, size, alignment, offsets, top, fuel, i).1 matches Ok(
            (layout, all),
        ) ==> {
            &&& size <= layout.size
            &&& alignment <= layout.alignment
            &&& layout.alignment == alignment || exists|k: int|
                i <= k < fields.len() && layout.alignment == all.get(
                    (#[trigger] fields[k])->Field_name,
                )->0.alignment
            &&& layout.size <= size + layout.alignment || exists|k: int|
                i <= k < fields.len() && layout.size <= all.get(
                    (#[trigger] fields[k])->Field_name,
                )->0.size + layout.alignment
            &&& forall|k: int|
                i <= k < fields.len() ==> {
                    let data = all.get((#[trigger] fields[k])->Field_name);
                    &&& is_recorded(fields[k], data)
                    &&& data->0.alignment <= layout.alignment
                    &&& data->0.offset == offset
                    &&& data->0.size <= layout.size
                }
            &&& forall|other: Seq<char>|
                (forall|k: int| i <= k < fields.len() ==> (#[trigger] fields[k])->Field_name
                    != other) ==> #[trigger] all.get(other) == offsets.get(other)
        },
    decreases fields.len() - i,
{
    reveal(AnalyzerView::resolve_layout_union);
    reveal(AnalyzerView::resolve_layout_field);
    reveal(AnalyzerView::larger);
    if i >= fields.len() {
        lemma_whole(s, 0, size, alignment);
    } else {
        lemma_plain_field(s, fields[i], offset, offsets, top, fuel);
        let (t, r) = s.resolve_layout_field(fields[i], offset, offsets, top, fuel);
        if let Ok((layout, table)) = r {
            let largest = t.larger(size, layout.size);
            let most = t.larger(alignment, layout.alignment);
            law_union_fields(t, fields, offset, largest, most, table, top, fuel, i + 1);
            let whole = t.resolve_layout_union(
                fields,
                offset,
                largest,
                most,
                table,
                top,
                fuel,
                i + 1,
            );
            if let Ok((total, all)) = whole.1 {
                let name = fields[i]->Field_name;
                assert(all.get(name) == table.get(name));
                assert forall|other: Seq<char>|
                    (forall|k: int| i <= k < fields.len() ==> (#[trigger] fields[k])->Field_name
                        != other) implies #[trigger] all.get(other) == offsets.get(other) by {
                    assert(fields[i]->Field_name != other);
                    assert(all.get(other) == table.get(other));
                }
                assert(all.get(fields[i]->Field_name)->0.alignment == layout.alignment);
                assert(all.get(fields[i]->Field_name)->0.size == layout.size);
            }
        }
    }
}

/// The layout of a struct or a union is the one of its fields, which begin at its begin, and it is
/// recorded with the places of the fields.
pub proof fn law_compound_layout(
    s: AnalyzerView,
    scope_id: ScopeIdView,
    line: Span,
    fields: Seq<FieldInfoView>,
    fuel: int,
    k: int,
)
    requires
        fuel > 2,
        is_flat(fields),
        0 <= k < fields.len(),
        0 <= scope_id.index < s.scopes.len(),
        s.scopes[scope_id.index].payload matches PayloadView::Compound(info) && (info.field
            == FieldInfoView::Struct(fields) || info.field == FieldInfoView::Union(fields)),
        s.resolve_layout(TypeView::Basic(scope_id), line, fuel).1 is Ok,
    ensures
        ({
            let (t, r) = s.resolve_layout(TypeView::Basic(scope_id), line, fuel);
            let field = s.scopes[scope_id.index].payload->Compound_0.field;
            let layout = r->Ok_0;
            scope_id.index < t.scopes.len() ==> {
                let info = t.scopes[scope_id.index].payload->Compound_0;
                let data = info.field_data_table.get(fields[k]->Field_name);
                &&& t.scopes[scope_id.index].payload is Compound
                &&& info.field == field
                &&& info.layout == layout
                &&& is_recorded(fields[k], data)
                &&& data->0.offset + data->0.size <= layout.size
                &&& data->0.alignment <= layout.alignment
                &&& field is Union || k == 0 ==> data->0.offset == 0
                &&& field is Struct && k > 0 ==> {
                    let before = info.field_data_table.get(fields[k - 1]->Field_name)->0;
                    &&& before.offset + before.size <= data->0.offset
                    &&& data->0.offset < before.offset + before.size + before.alignment
                }
            }
        }),
{
    reveal(AnalyzerView::resolve_layout);
    reveal(AnalyzerView::resolve_layout_scope);
    reveal(AnalyzerView::resolve_layout_field);
    reveal(AnalyzerView::resolve_layout_struct);
    reveal(AnalyzerView::resolve_layout_union);
    let field = s.scopes[scope_id.index].payload->Compound_0.field;
    let t = s.set_payload(scope_id, PayloadView::LayoutResolutionInProgress);
    let none = TableView::<FieldDataView>::empty();
    assert(s.resolve_layout(TypeView::Basic(scope_id), line, fuel) == s.resolve_layout_scope(
        scope_id,
        fuel - 1,
    ));
    let (u, r) = t.resolve_layout_field(field, 0, none, field, fuel - 2);
    if field is Struct {
        law_struct_fields(t, fields, 0, 0, 1, none, field, fuel - 3, 0);
        assert((u, r) == t.resolve_layout_struct(fields, 0, 0, 1, none, field, fuel - 3, 0));
    } else {
        law_union_fields(t, fields, 0, 0, 1, none, field, fuel - 3, 0);
        assert((u, r) == t.resolve_layout_union(fields, 0, 0, 1, none, field, fuel - 3, 0));
    }
    assert(r is Ok);
    let (layout, all) = r->Ok_0;
    assert(is_recorded(fields[k], all.get(fields[k]->Field_name)));
}

proof fn lemma_tuple(
    s: AnalyzerView,
    items: Seq<TypeView>,
    line: Span,
    offset: usize,
    alignment: usize,
    fuel: int,
    i: int,
)
    requires
        0 <= i <= items.len(),
    ensures
        s.resolve_layout_tuple(items, line, offset, alignment, fuel, i).1 matches Ok(layout) ==> {
            &&& offset <= layout.size
            &&& alignment <= layout.alignment
        },
    decreases items.len() - i,
{
    reveal(AnalyzerView::resolve_layout_tuple);
    reveal(AnalyzerView::resolve_layout);
    reveal(AnalyzerView::larger);
    if i >= items.len() {
        lemma_whole(s, 0, offset, alignment);
    } else {
        let (t, r) = s.resolve_layout(items[i], line, fuel);
        if let Ok(layout) = r {
            law_advance(t, offset, layout);
            if let Ok(end) = t.advance(offset, layout) {
                lemma_tuple(t, items, line, end, t.larger(alignment, layout.alignment), fuel,
                    i + 1);
            }
        }
    }
}

/// A tuple has room for its items one after the other: where the first ones have taken some room,
/// the next one takes its own size after it, and the alignment is at least that of each item.
pub proof fn law_tuple_items(
    s: AnalyzerView,
    items: Seq<TypeView>,
    line: Span,
    offset: usize,
    alignment: usize,
    fuel: int,
    i: int,
)
    requires
        0 <= i < items.len(),
        s.resolve_layout_tuple(items, line, offset, alignment, fuel, i).1 is Ok,
    ensures
        ({
            let layout = s.resolve_layout_tuple(items, line, offset, alignment, fuel, i).1->Ok_0;
            let item = s.resolve_layout(items[i], line, fuel).1->Ok_0;
            &&& s.resolve_layout(items[i], line, fuel).1 is Ok
            &&& offset + item.size <= layout.size
            &&& item.alignment <= layout.alignment
            &&& i + 1 == items.len() ==> layout.size <= offset + item.size + item.alignment
                + layout.alignment
            &&& i + 1 == items.len() ==> layout.alignment == alignment || layout.alignment
                == item.alignment
        }),
{
    reveal(AnalyzerView::resolve_layout_tuple);
    reveal(AnalyzerView::resolve_layout);
    reveal(AnalyzerView::larger);
    let (t, r) = s.resolve_layout(items[i], line, fuel);
    if let Ok(layout) = r {
        law_advance(t, offset, layout);
        if let Ok(end) = t.advance(offset, layout) {
            let most = t.larger(alignment, layout.alignment);
            lemma_tuple(t, items, line, end, most, fuel, i + 1);
            if i + 1 == items.len() {
                lemma_whole(t, 0, end, most);
            }
        }
    }
}

} // verus!
