use vstd::prelude::*;

use crate::analyzer::{group_analyzer, lemma_begin, Analyzer, AnalyzerView};
use crate::common::{outcome, CompileError, ErrorView, Layout, LineInfo, Span, Stop, StopView};
use crate::context::{type_models, Type, TypeView};
use crate::scope::{
    field_models, CompoundInfo, CompoundInfoView, FieldData, FieldDataView, FieldInfo,
    FieldInfoView, Payload, PayloadView, ScopeId, ScopeIdView,
};
use crate::table::{entered, with_entry, Table, TableView};
use crate::text::join2;

verus! {

impl AnalyzerView {
    /// The next multiple of the alignment.
    #[verifier::opaque]
    pub open spec fn padded(
        self,
        offset: usize,
        alignment: usize,
    ) -> Result<usize, StopView>
    {
        if alignment == 0 {
            Err(StopView::Unsupported("attempt to calculate the remainder with a divisor of zero"@))
        } else {
        match offset.checked_rem(alignment) { None => {
            Err(StopView::Unsupported("attempt to calculate the remainder with a divisor of zero"@))
        }, Some(rest) => {
        if rest == 0 {
            Ok(offset)
        } else {
        match alignment.checked_sub(rest) { None => {
            Err(StopView::Unsupported("attempt to subtract with overflow"@))
        }, Some(padding) => {
        match offset.checked_add(padding) { None => {
            Err(StopView::Unsupported("attempt to add with overflow"@))
        }, Some(end) => {
        Ok(end)
        }}}}}}}}
    }

    /// The offset after an item of a layout.
    #[verifier::opaque]
    pub open spec fn advance(
        self,
        offset: usize,
        layout: Layout,
    ) -> Result<usize, StopView>
    {
        let s = self;
        match offset.checked_add(layout.size) { None => {
            Err(StopView::Unsupported("attempt to add with overflow"@))
        }, Some(end) => {
        s.padded(end, layout.alignment)
        }}
    }

    /// The larger of two sizes.
    #[verifier::opaque]
    pub open spec fn larger(
        self,
        a: usize,
        b: usize,
    ) -> usize
    {
        if a < b {
            b
        } else {
            a
        }
    }

    /// The layout of items that end at an offset. Without items it is one unit large.
    #[verifier::opaque]
    pub open spec fn whole_layout(
        self,
        start: usize,
        end: usize,
        alignment: usize,
    ) -> Result<Layout, StopView>
    {
        let s = self;
        match s.padded(end, alignment) { Err(e) => Err(e), Ok(end) => {
        match end.checked_sub(start) { None => {
            Err(StopView::Unsupported("attempt to subtract with overflow"@))
        }, Some(size) => {
        if size == 0 {
            Ok(Layout { size: alignment, alignment })
        } else {
        Ok(Layout { size, alignment })
        }}}}}
    }

    /// The size and the alignment of a type.
    #[verifier::opaque]
    pub open spec fn resolve_layout(
        self,
        taipe: TypeView,
        line: Span,
        fuel: int,
    ) -> (AnalyzerView, Result<Layout, StopView>)
        decreases fuel, 1nat, 0int,
    {
        let s = self;
        if fuel <= 0 {
            (s, Err(StopView::Unsupported("nested too deeply"@)))
        } else {
        match taipe {
            TypeView::Bool | TypeView::Char | TypeView::Int8 | TypeView::Uint8 => {
                (s, Ok(Layout { size: 1, alignment: 1 }))
            },
            TypeView::Int16 | TypeView::Uint16 => {
                (s, Ok(Layout { size: 2, alignment: 2 }))
            },
            TypeView::Int32 | TypeView::Uint32 | TypeView::Float32 => {
                (s, Ok(Layout { size: 4, alignment: 4 }))
            },
            TypeView::Int64 | TypeView::Uint64 | TypeView::Float64 => {
                (s, Ok(Layout { size: 8, alignment: 8 }))
            },
            TypeView::Int128 | TypeView::Uint128 => {
                (s, Ok(Layout { size: 16, alignment: 16 }))
            },
            TypeView::Const(inner) => {
                s.resolve_layout(*inner, line, fuel - 1)
            },
            TypeView::Basic(scope_id) => {
                s.resolve_layout_scope(scope_id, fuel - 1)
            },
            TypeView::Function { ret: _, params: _ } | TypeView::Pointer(_) => {
                (s, Ok(Layout { size: s.pointer_size(), alignment: s.pointer_size() }))
            },
            TypeView::Array { count, taipe } => {
                match s.resolve_layout(*taipe, line, fuel - 1) {
                    (s, Err(e)) => (s, Err(e)), (s, Ok(item)) => {
                match (count).checked_mul(item.size) { None => {
                    (s, Err(StopView::Unsupported("attempt to multiply with overflow"@)))
                }, Some(size) => {
                (s, Ok(Layout { size, alignment: item.alignment }))
                }}}}
            },
            TypeView::Fat(_) => {
                match s.pointer_size().checked_mul(2) { None => {
                    (s, Err(StopView::Unsupported("attempt to multiply with overflow"@)))
                }, Some(size) => {
                (s, Ok(Layout { size, alignment: s.pointer_size() }))
                }}
            },
            TypeView::Tuple(items) => {
                s.resolve_layout_tuple(items, line, 0, 1, fuel - 1, 0)
            },
            TypeView::VarInt
            | TypeView::Module
            | TypeView::Typedef
            | TypeView::Void
            | TypeView::Noreturn => {
                (
                    s,
                    Err(
                        StopView::Errors(
                            s.make_err(
                                (
                                    "type has no memory layout, problem type is '"@
                                        + taipe.to_text()
                                        + "'"@
                                ),
                                line,
                            ),
                        ),
                    ),
                )
            },
        }
        }
    }

    /// The layout of a tuple of the given types, after items that end at an offset.
    #[verifier::opaque]
    pub open spec fn resolve_layout_tuple(
        self,
        items: Seq<TypeView>,
        line: Span,
        offset: usize,
        alignment: usize,
        fuel: int,
        i: int,
    ) -> (AnalyzerView, Result<Layout, StopView>)
        decreases fuel, 2nat, items.len() - i,
    {
        let s = self;
        if i < 0 || i >= items.len() {
            (s, s.whole_layout(0, offset, alignment))
        } else {
        match s.resolve_layout(items[i], line, fuel) {
            (s, Err(e)) => (s, Err(e)), (s, Ok(layout)) => {
        match s.advance(offset, layout) { Err(e) => (s, Err(e)), Ok(end) => {
        let most = s.larger(alignment, layout.alignment);
        s.resolve_layout_tuple(items, line, end, most, fuel, i + 1)
        }}}}}
    }

    /// The layout of a struct or a union. It is recorded together with the offsets of the fields.
    #[verifier::opaque]
    pub open spec fn resolve_layout_scope(
        self,
        scope_id: ScopeIdView,
        fuel: int,
    ) -> (AnalyzerView, Result<Layout, StopView>)
        decreases fuel, 1nat, 0int,
    {
        let s = self;
        if fuel <= 0 {
            (s, Err(StopView::Unsupported("nested too deeply"@)))
        } else {
        match s.get_scope(scope_id) { Err(e) => (s, Err(e)), Ok(scope) => {
        match scope.payload {
            PayloadView::Compound(compound) => {
                let field = compound.field;
                let s = s.set_payload(scope_id, PayloadView::LayoutResolutionInProgress);
                let (s, result) = s.resolve_layout_field(
                    field,
                    0,
                    TableView::empty(),
                    field,
                    fuel - 1,
                );
                match result {
                    Ok((layout, offsets)) => {
                        let s = s.set_payload(
                            scope_id,
                            PayloadView::Compound(
                                CompoundInfoView { field, layout, field_data_table: offsets },
                            ),
                        );
                        (s, Ok(layout))
                    },
                    Err(StopView::Errors(ErrorView::SemCyclic { file_path, line_info })) => {
                        match s.scope_line(scope_id) { Err(e) => (s, Err(e)), Ok(line) => {
                        (
                            s,
                            Err(
                                StopView::Errors(
                                    ErrorView::pair(
                                        s.make_err(
                                            "memory layout is ambiguous, encountered cyclic references"@,
                                            line,
                                        ),
                                        s.make_note_with_path(
                                            "cycle occurs here"@,
                                            file_path,
                                            line_info,
                                        ),
                                    ),
                                ),
                            ),
                        )
                        }}
                    },
                    Err(e) => {
                        (s, Err(e))
                    },
                }
            },
            PayloadView::LayoutResolutionInProgress | PayloadView::Unknown => {
                match s.scope_line(scope_id) { Err(e) => (s, Err(e)), Ok(line) => {
                match s.get_src_path_of_scope(scope_id) { Err(e) => (s, Err(e)), Ok(path) => {
                (
                    s,
                    Err(
                        StopView::Errors(ErrorView::SemCyclic { file_path: path, line_info: line }),
                    ),
                )
                }}}}
            },
            _ => {
                (s, Err(StopView::Unsupported("probably some analyzer bug"@)))
            },
        }
        }}}
    }

    /// The region of a scope.
    #[verifier::opaque]
    pub open spec fn scope_line(
        self,
        scope_id: ScopeIdView,
    ) -> Result<Span, StopView>
    {
        let s = self;
        match s.get_scope(scope_id) { Err(e) => Err(e), Ok(scope) => {
        Ok(scope.line_info)
        }}
    }

    /// The layout of a field that stands at an offset, and the offsets of all fields so far.
    #[verifier::opaque]
    pub open spec fn resolve_layout_field(
        self,
        field: FieldInfoView,
        offset: usize,
        offsets: TableView<FieldDataView>,
        top: FieldInfoView,
        fuel: int,
    ) -> (AnalyzerView, Result<(Layout, TableView<FieldDataView>), StopView>)
        decreases fuel, 1nat, 0int,
    {
        let s = self;
        if fuel <= 0 {
            (s, Err(StopView::Unsupported("nested too deeply"@)))
        } else {
        match field {
            FieldInfoView::Struct(fields) => {
                s.resolve_layout_struct(fields, offset, offset, 1, offsets, top, fuel - 1, 0)
            },
            FieldInfoView::Union(fields) => {
                s.resolve_layout_union(fields, offset, 0, 1, offsets, top, fuel - 1, 0)
            },
            FieldInfoView::Field { file_path, line_info, name, taipe } => {
                match top.get_line_info_of(name) { None => {
                    (s, Err(StopView::Unsupported("probably some analyzer bug"@)))
                }, Some(line) => {
                let (s, result) = s.resolve_layout(taipe, line, fuel - 1);
                match result {
                    Ok(layout) => {
                        let data = FieldDataView {
                            name: name,
                            taipe: taipe,
                            file_path: file_path,
                            line_info: line_info,
                            offset,
                            size: layout.size,
                            alignment: layout.alignment,
                        };
                        (s, Ok((layout, entered(offsets, name, data))))
                    },
                    Err(StopView::Errors(ErrorView::SemCyclic { file_path: _, line_info: _ })) => {
                        (
                            s,
                            Err(
                                StopView::Errors(
                                    ErrorView::SemCyclic {
                                        file_path: file_path,
                                        line_info: line_info,
                                    },
                                ),
                            ),
                        )
                    },
                    Err(e) => {
                        (s, Err(e))
                    },
                }
                }}
            },
        }
        }
    }

    /// The layout of the fields of a struct that starts at an offset, after fields that end at
    /// another one.
    #[verifier::opaque]
    pub open spec fn resolve_layout_struct(
        self,
        fields: Seq<FieldInfoView>,
        start: usize,
        offset: usize,
        alignment: usize,
        offsets: TableView<FieldDataView>,
        top: FieldInfoView,
        fuel: int,
        i: int,
    ) -> (AnalyzerView, Result<(Layout, TableView<FieldDataView>), StopView>)
        decreases fuel, 2nat, fields.len() - i,
    {
        let s = self;
        if i < 0 || i >= fields.len() {
            match s.whole_layout(start, offset, alignment) { Err(e) => (s, Err(e)), Ok(layout) => {
            (s, Ok((layout, offsets)))
            }}
        } else {
        match s.resolve_layout_field(fields[i], offset, offsets, top, fuel) {
            (s, Err(e)) => (s, Err(e)), (s, Ok((layout, table))) => {
        match s.advance(offset, layout) { Err(e) => (s, Err(e)), Ok(end) => {
        let most = s.larger(alignment, layout.alignment);
        s.resolve_layout_struct(fields, start, end, most, table, top, fuel, i + 1)
        }}}}}
    }

    /// The layout of the fields of a union, all of which stand at the same offset.
    #[verifier::opaque]
    pub open spec fn resolve_layout_union(
        self,
        fields: Seq<FieldInfoView>,
        offset: usize,
        size: usize,
        alignment: usize,
        offsets: TableView<FieldDataView>,
        top: FieldInfoView,
        fuel: int,
        i: int,
    ) -> (AnalyzerView, Result<(Layout, TableView<FieldDataView>), StopView>)
        decreases fuel, 2nat, fields.len() - i,
    {
        let s = self;
        if i < 0 || i >= fields.len() {
            match s.whole_layout(0, size, alignment) { Err(e) => (s, Err(e)), Ok(layout) => {
            (s, Ok((layout, offsets)))
            }}
        } else {
        match s.resolve_layout_field(fields[i], offset, offsets, top, fuel) {
            (s, Err(e)) => (s, Err(e)), (s, Ok((layout, table))) => {
        let largest = s.larger(size, layout.size);
        let most = s.larger(alignment, layout.alignment);
        s.resolve_layout_union(fields, offset, largest, most, table, top, fuel, i + 1)
        }}}
    }
}

impl<'a> Analyzer<'a> {
    /// The next multiple of the alignment.
    pub(crate) fn padded(
        &self,
        offset: usize,
        alignment: usize,
    ) -> (r: Result<usize, Stop>)
        requires
            self@.wf(),
        ensures
            outcome(r) == self@.padded(offset, alignment),
    {
        broadcast use group_analyzer;

        proof {
            reveal(AnalyzerView::padded);
        }
        if alignment == 0 {
            return Err(
                Stop::Unsupported(
                    "attempt to calculate the remainder with a divisor of zero".to_owned(),
                ),
            );
        }
        let Some(rest) = offset.checked_rem(alignment) else {
            return Err(
                Stop::Unsupported(
                    "attempt to calculate the remainder with a divisor of zero".to_owned(),
                ),
            );
        };
        if rest == 0 {
            return Ok(offset);
        }
        let Some(padding) = alignment.checked_sub(rest) else {
            return Err(Stop::Unsupported("attempt to subtract with overflow".to_owned()));
        };
        let Some(end) = offset.checked_add(padding) else {
            return Err(Stop::Unsupported("attempt to add with overflow".to_owned()));
        };
        Ok(end)
    }

    /// The offset after an item of a layout.
    pub(crate) fn advance(
        &self,
        offset: usize,
        layout: Layout,
    ) -> (r: Result<usize, Stop>)
        requires
            self@.wf(),
        ensures
            outcome(r) == self@.advance(offset, layout@),
    {
        broadcast use group_analyzer;

        proof {
            reveal(AnalyzerView::advance);
        }
        let Some(end) = offset.checked_add(layout.size) else {
            return Err(Stop::Unsupported("attempt to add with overflow".to_owned()));
        };
        self.padded(end, layout.alignment)
    }

    /// The larger of two sizes.
    pub(crate) fn larger(
        &self,
        a: usize,
        b: usize,
    ) -> (r: usize)
        requires
            self@.wf(),
        ensures
            r == self@.larger(a, b),
    {
        broadcast use group_analyzer;

        proof {
            reveal(AnalyzerView::larger);
        }
        if a < b {
            b
        } else {
            a
        }
    }

    /// The layout of items that end at an offset. Without items it is one unit large.
    pub(crate) fn whole_layout(
        &self,
        start: usize,
        end: usize,
        alignment: usize,
    ) -> (r: Result<Layout, Stop>)
        requires
            self@.wf(),
        ensures
            outcome(r) == self@.whole_layout(start, end, alignment),
    {
        broadcast use group_analyzer;

        proof {
            reveal(AnalyzerView::whole_layout);
        }
        let end: usize = match self.padded(end, alignment) {
            Ok(v) => v,
            Err(e) => {
                return Err(e);
            },
        };
        let Some(size) = end.checked_sub(start) else {
            return Err(Stop::Unsupported("attempt to subtract with overflow".to_owned()));
        };
        if size == 0 {
            return Ok(Layout { size: alignment, alignment });
        }
        Ok(Layout { size, alignment })
    }

    /// The size and the alignment of a type.
    pub(crate) fn resolve_layout(
        &mut self,
        taipe: &Type,
        line: LineInfo,
        fuel: u64,
    ) -> (r: Result<Layout, Stop>)
        requires
            old(self)@.wf(),
        ensures
            (final(self)@, outcome(r)) == old(self)@.resolve_layout(taipe@, line@, fuel as int),
            final(self)@.follows(old(self)@),
            final(self)@.stack == old(self)@.stack,
        decreases fuel, 1nat,
    {
        broadcast use group_analyzer;

        proof {
            lemma_begin(self@);
            reveal(AnalyzerView::resolve_layout);
            reveal(AnalyzerView::resolve_layout_scope);
            reveal(AnalyzerView::resolve_layout_tuple);
        }
        if fuel == 0 {
            return Err(Stop::Unsupported("nested too deeply".to_owned()));
        }
        match taipe {
            Type::Bool | Type::Char | Type::Int8 | Type::Uint8 => {
                Ok(Layout { size: 1, alignment: 1 })
            },
            Type::Int16 | Type::Uint16 => {
                Ok(Layout { size: 2, alignment: 2 })
            },
            Type::Int32 | Type::Uint32 | Type::Float32 => {
                Ok(Layout { size: 4, alignment: 4 })
            },
            Type::Int64 | Type::Uint64 | Type::Float64 => {
                Ok(Layout { size: 8, alignment: 8 })
            },
            Type::Int128 | Type::Uint128 => {
                Ok(Layout { size: 16, alignment: 16 })
            },
            Type::Const(inner) => {
                self.resolve_layout(inner, line, fuel - 1)
            },
            Type::Basic(scope_id) => {
                self.resolve_layout_scope(scope_id, fuel - 1)
            },
            Type::Function { ret: _, params: _ } | Type::Pointer(_) => {
                Ok(Layout { size: self.pointer_size(), alignment: self.pointer_size() })
            },
            Type::Array { count, taipe } => {
                let item = match self.resolve_layout(taipe, line, fuel - 1) {
                    Ok(v) => v,
                    Err(e) => {
                        return Err(e);
                    },
                };
                let Some(size) = (*count).checked_mul(item.size) else {
                    return Err(Stop::Unsupported("attempt to multiply with overflow".to_owned()));
                };
                Ok(Layout { size, alignment: item.alignment })
            },
            Type::Fat(_) => {
                let Some(size) = self.pointer_size().checked_mul(2) else {
                    return Err(Stop::Unsupported("attempt to multiply with overflow".to_owned()));
                };
                Ok(Layout { size, alignment: self.pointer_size() })
            },
            Type::Tuple(items) => {
                self.resolve_layout_tuple(items, line, 0, 1, fuel - 1)
            },
            Type::VarInt | Type::Module | Type::Typedef | Type::Void | Type::Noreturn => {
                Err(
                    Stop::Errors(
                        self.make_err(
                            &join2(
                                &join2(
                                    "type has no memory layout, problem type is '",
                                    &taipe.to_text(),
                                ),
                                "'",
                            ),
                            line,
                        ),
                    ),
                )
            },
        }
    }

    /// The layout of a tuple of the given types, after items that end at an offset.
    #[verifier::loop_isolation(false)]
    pub(crate) fn resolve_layout_tuple(
        &mut self,
        items: &Vec<Type>,
        line: LineInfo,
        offset: usize,
        alignment: usize,
        fuel: u64,
    ) -> (r: Result<Layout, Stop>)
        requires
            old(self)@.wf(),
        ensures
            (final(self)@, outcome(r)) == old(self)@.resolve_layout_tuple(
                type_models(items@),
                line@,
                offset,
                alignment,
                fuel as int,
                0,
            ),
            final(self)@.follows(old(self)@),
            final(self)@.stack == old(self)@.stack,
        decreases fuel, 2nat,
    {
        broadcast use group_analyzer;

        proof {
            lemma_begin(self@);
            reveal(AnalyzerView::resolve_layout_tuple);
            reveal(AnalyzerView::resolve_layout);
        }
        let ghost goal = self@.resolve_layout_tuple(
            type_models(items@),
            line@,
            offset,
            alignment,
            fuel as int,
            0,
        );
        let ghost begin = self@;
        let mut offset: usize = offset;
        let mut alignment: usize = alignment;
        let mut i: usize = 0;
        while i < items.len()
            invariant
                i <= items@.len(),
                goal == self@.resolve_layout_tuple(
                    type_models(items@),
                    line@,
                    offset,
                    alignment,
                    fuel as int,
                    i as int,
                ),
                self@.follows(begin),
                self@.comes_from(begin),
                self@.stack == begin.stack,
            decreases items@.len() - i,
        {
            proof {
                reveal(AnalyzerView::resolve_layout_tuple);
                reveal(AnalyzerView::resolve_layout);
            }
            let layout = match self.resolve_layout(&items[i], line, fuel) {
                Ok(v) => v,
                Err(e) => {
                    return Err(e);
                },
            };
            let end: usize = match self.advance(offset, layout) {
                Ok(v) => v,
                Err(e) => {
                    return Err(e);
                },
            };
            let most: usize = self.larger(alignment, layout.alignment);
            offset = end;
            alignment = most;
            i = i + 1;
        }
        self.whole_layout(0, offset, alignment)
    }

    /// The layout of a struct or a union. It is recorded together with the offsets of the fields.
    pub(crate) fn resolve_layout_scope(
        &mut self,
        scope_id: &ScopeId,
        fuel: u64,
    ) -> (r: Result<Layout, Stop>)
        requires
            old(self)@.wf(),
        ensures
            (final(self)@, outcome(r)) == old(self)@.resolve_layout_scope(scope_id@, fuel as int),
            final(self)@.follows(old(self)@),
            final(self)@.stack == old(self)@.stack,
        decreases fuel, 1nat,
    {
        broadcast use group_analyzer;

        proof {
            lemma_begin(self@);
            reveal(AnalyzerView::resolve_layout_scope);
            reveal(AnalyzerView::resolve_layout_field);
        }
        if fuel == 0 {
            return Err(Stop::Unsupported("nested too deeply".to_owned()));
        }
        let scope = match self.get_scope(scope_id) {
            Ok(v) => v,
            Err(e) => {
                return Err(e);
            },
        };
        match &scope.payload {
            Payload::Compound(compound) => {
                let field = compound.field.copy();
                self.set_payload(scope_id, Payload::LayoutResolutionInProgress);
                match self.resolve_layout_field(&field, 0, Table::empty(), &field, fuel - 1) {
                    Ok((layout, offsets)) => {
                        self.set_payload(
                            scope_id,
                            Payload::Compound(
                                CompoundInfo { field, layout, field_data_table: offsets },
                            ),
                        );
                        Ok(layout)
                    },
                    Err(Stop::Errors(CompileError::SemCyclic { file_path, line_info })) => {
                        let line = match self.scope_line(scope_id) {
                            Ok(v) => v,
                            Err(e) => {
                                return Err(e);
                            },
                        };
                        Err(
                            Stop::Errors(
                                CompileError::pair(
                                    self.make_err(
                                        "memory layout is ambiguous, encountered cyclic references",
                                        line,
                                    ),
                                    self.make_note_with_path(
                                        "cycle occurs here",
                                        file_path,
                                        line_info,
                                    ),
                                ),
                            ),
                        )
                    },
                    Err(e) => {
                        Err(e)
                    },
                }
            },
            Payload::LayoutResolutionInProgress | Payload::Unknown => {
                let line = match self.scope_line(scope_id) {
                    Ok(v) => v,
                    Err(e) => {
                        return Err(e);
                    },
                };
                let path = match self.get_src_path_of_scope(scope_id) {
                    Ok(v) => v,
                    Err(e) => {
                        return Err(e);
                    },
                };
                Err(Stop::Errors(CompileError::SemCyclic { file_path: path, line_info: line }))
            },
            _ => {
                Err(Stop::Unsupported("probably some analyzer bug".to_owned()))
            },
        }
    }

    /// The region of a scope.
    pub(crate) fn scope_line(
        &self,
        scope_id: &ScopeId,
    ) -> (r: Result<LineInfo, Stop>)
        requires
            self@.wf(),
        ensures
            outcome(r) == self@.scope_line(scope_id@),
    {
        broadcast use group_analyzer;

        proof {
            reveal(AnalyzerView::scope_line);
        }
        let scope = match self.get_scope(scope_id) {
            Ok(v) => v,
            Err(e) => {
                return Err(e);
            },
        };
        Ok(scope.line_info)
    }

    /// The layout of a field that stands at an offset, and the offsets of all fields so far.
    pub(crate) fn resolve_layout_field(
        &mut self,
        field: &FieldInfo,
        offset: usize,
        offsets: Table<FieldData>,
        top: &FieldInfo,
        fuel: u64,
    ) -> (r: Result<(Layout, Table<FieldData>), Stop>)
        requires
            old(self)@.wf(),
        ensures
            (final(self)@, outcome(r)) == old(self)@.resolve_layout_field(
                field@,
                offset,
                offsets@,
                top@,
                fuel as int,
            ),
            final(self)@.follows(old(self)@),
            final(self)@.stack == old(self)@.stack,
        decreases fuel, 1nat,
    {
        broadcast use group_analyzer;

        proof {
            lemma_begin(self@);
            reveal(AnalyzerView::resolve_layout_field);
            reveal(AnalyzerView::resolve_layout);
            reveal(AnalyzerView::resolve_layout_struct);
            reveal(AnalyzerView::resolve_layout_union);
        }
        if fuel == 0 {
            return Err(Stop::Unsupported("nested too deeply".to_owned()));
        }
        match field {
            FieldInfo::Struct(fields) => {
                self.resolve_layout_struct(fields, offset, offset, 1, offsets, top, fuel - 1)
            },
            FieldInfo::Union(fields) => {
                self.resolve_layout_union(fields, offset, 0, 1, offsets, top, fuel - 1)
            },
            FieldInfo::Field { file_path, line_info, name, taipe } => {
                let Some(line) = top.get_line_info_of(name) else {
                    return Err(Stop::Unsupported("probably some analyzer bug".to_owned()));
                };
                match self.resolve_layout(taipe, line, fuel - 1) {
                    Ok(layout) => {
                        let data = FieldData {
                            name: name.clone(),
                            taipe: taipe.copy(),
                            file_path: file_path.clone(),
                            line_info: *line_info,
                            offset,
                            size: layout.size,
                            alignment: layout.alignment,
                        };
                        Ok((layout, with_entry(offsets, name.clone(), data)))
                    },
                    Err(Stop::Errors(CompileError::SemCyclic { file_path: _, line_info: _ })) => {
                        Err(
                            Stop::Errors(
                                CompileError::SemCyclic {
                                    file_path: file_path.clone(),
                                    line_info: *line_info,
                                },
                            ),
                        )
                    },
                    Err(e) => {
                        Err(e)
                    },
                }
            },
        }
    }

    /// The layout of the fields of a struct that starts at an offset, after fields that end at
    /// another one.
    #[verifier::loop_isolation(false)]
    pub(crate) fn resolve_layout_struct(
        &mut self,
        fields: &Vec<FieldInfo>,
        start: usize,
        offset: usize,
        alignment: usize,
        offsets: Table<FieldData>,
        top: &FieldInfo,
        fuel: u64,
    ) -> (r: Result<(Layout, Table<FieldData>), Stop>)
        requires
            old(self)@.wf(),
        ensures
            (final(self)@, outcome(r)) == old(self)@.resolve_layout_struct(
                field_models(fields@),
                start,
                offset,
                alignment,
                offsets@,
                top@,
                fuel as int,
                0,
            ),
            final(self)@.follows(old(self)@),
            final(self)@.stack == old(self)@.stack,
        decreases fuel, 2nat,
    {
        broadcast use group_analyzer;

        proof {
            lemma_begin(self@);
            reveal(AnalyzerView::resolve_layout_struct);
            reveal(AnalyzerView::resolve_layout_field);
        }
        let ghost goal = self@.resolve_layout_struct(
            field_models(fields@),
            start,
            offset,
            alignment,
            offsets@,
            top@,
            fuel as int,
            0,
        );
        let ghost begin = self@;
        let mut offset: usize = offset;
        let mut alignment: usize = alignment;
        let mut offsets: Table<FieldData> = offsets;
        let mut i: usize = 0;
        while i < fields.len()
            invariant
                i <= fields@.len(),
                goal == self@.resolve_layout_struct(
                    field_models(fields@),
                    start,
                    offset,
                    alignment,
                    offsets@,
                    top@,
                    fuel as int,
                    i as int,
                ),
                self@.follows(begin),
                self@.comes_from(begin),
                self@.stack == begin.stack,
            decreases fields@.len() - i,
        {
            proof {
                reveal(AnalyzerView::resolve_layout_struct);
                reveal(AnalyzerView::resolve_layout_field);
            }
            let (layout, table) = match self.resolve_layout_field(
                &fields[i],
                offset,
                offsets,
                top,
                fuel,
            ) {
                Ok(v) => v,
                Err(e) => {
                    return Err(e);
                },
            };
            let end: usize = match self.advance(offset, layout) {
                Ok(v) => v,
                Err(e) => {
                    return Err(e);
                },
            };
            let most: usize = self.larger(alignment, layout.alignment);
            offset = end;
            alignment = most;
            offsets = table;
            i = i + 1;
        }
        let layout = match self.whole_layout(start, offset, alignment) {
            Ok(v) => v,
            Err(e) => {
                return Err(e);
            },
        };
        Ok((layout, offsets))
    }

    /// The layout of the fields of a union, all of which stand at the same offset.
    #[verifier::loop_isolation(false)]
    pub(crate) fn resolve_layout_union(
        &mut self,
        fields: &Vec<FieldInfo>,
        offset: usize,
        size: usize,
        alignment: usize,
        offsets: Table<FieldData>,
        top: &FieldInfo,
        fuel: u64,
    ) -> (r: Result<(Layout, Table<FieldData>), Stop>)
        requires
            old(self)@.wf(),
        ensures
            (final(self)@, outcome(r)) == old(self)@.resolve_layout_union(
                field_models(fields@),
                offset,
                size,
                alignment,
                offsets@,
                top@,
                fuel as int,
                0,
            ),
            final(self)@.follows(old(self)@),
            final(self)@.stack == old(self)@.stack,
        decreases fuel, 2nat,
    {
        broadcast use group_analyzer;

        proof {
            lemma_begin(self@);
            reveal(AnalyzerView::resolve_layout_union);
            reveal(AnalyzerView::resolve_layout_field);
        }
        let ghost goal = self@.resolve_layout_union(
            field_models(fields@),
            offset,
            size,
            alignment,
            offsets@,
            top@,
            fuel as int,
            0,
        );
        let ghost begin = self@;
        let mut size: usize = size;
        let mut alignment: usize = alignment;
        let mut offsets: Table<FieldData> = offsets;
        let mut i: usize = 0;
        while i < fields.len()
            invariant
                i <= fields@.len(),
                goal == self@.resolve_layout_union(
                    field_models(fields@),
                    offset,
                    size,
                    alignment,
                    offsets@,
                    top@,
                    fuel as int,
                    i as int,
                ),
                self@.follows(begin),
                self@.comes_from(begin),
                self@.stack == begin.stack,
            decreases fields@.len() - i,
        {
            proof {
                reveal(AnalyzerView::resolve_layout_union);
                reveal(AnalyzerView::resolve_layout_field);
            }
            let (layout, table) = match self.resolve_layout_field(
                &fields[i],
                offset,
                offsets,
                top,
                fuel,
            ) {
                Ok(v) => v,
                Err(e) => {
                    return Err(e);
                },
            };
            let largest: usize = self.larger(size, layout.size);
            let most: usize = self.larger(alignment, layout.alignment);
            size = largest;
            alignment = most;
            offsets = table;
            i = i + 1;
        }
        let layout = match self.whole_layout(0, size, alignment) {
            Ok(v) => v,
            Err(e) => {
                return Err(e);
            },
        };
        Ok((layout, offsets))
    }
}

} // verus!
