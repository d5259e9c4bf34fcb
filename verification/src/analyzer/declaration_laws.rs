use vstd::prelude::*;

use crate::analyzer::meaning_laws::{
    assigned_from, expr_means, law_analysis_keeps_meaning, lemma_assigned, part, type_means,
};
use crate::analyzer::names::names_after;
use crate::analyzer::{AnalyzerView, ScopeEvalStateView};
use crate::ast;
use crate::ast::{ExprView, FieldView};
use crate::common::{Span, StopView};
use crate::context::{ContextView, ImmView, ParamView, TypeView, ValueView};
use crate::scope::{FieldInfoView, ParamInfoView, PayloadView, ScopeIdView, ScopeKind};
use crate::table::{entered, TableView};
use crate::token::{TokenKind, TokenView};

verus! {

/// Whether a value is what the name of a scope stands for: the type that is declared there, the
/// module, or what is stored in the variable, inside of a function or outside of all.
pub open spec fn stands_for(
    s: AnalyzerView,
    ctx: ContextView,
    id: ScopeIdView,
    line: Span,
) -> bool {
    &&& ctx.is_lvalue
    &&& 0 <= id.index < s.scopes.len()
    &&& match s.scopes[id.index].payload {
        PayloadView::Compound(_) => ctx.taipe is Typedef && ctx.value == ValueView::Imm(
            ImmView::Type(TypeView::Basic(id)),
        ),
        PayloadView::Typedef(taipe) => ctx.taipe is Typedef && ctx.value == ValueView::Imm(
            ImmView::Type(taipe),
        ),
        _ => if s.scopes[id.index].kind == ScopeKind::Module {
            ctx.taipe is Module && ctx.value == ValueView::Imm(ImmView::Module(id))
        } else {
            &&& s.scopes[id.index].get_type() == Some(ctx.taipe)
            &&& s.get_enclosing_function(id) is None ==> ctx.value == (ValueView::GetGlobal {
                line_info: line,
                scope_id: id,
            })
            &&& s.get_enclosing_function(id) is Some ==> ctx.value == (ValueView::GetLocal {
                line_info: line,
                scope_id: id,
            })
        },
    }
}

/// Whether scopes lie each in the next one, and a name is declared in the last one of them and
/// in none before it.
pub open spec fn is_nearest(
    s: AnalyzerView,
    scopes: Seq<ScopeIdView>,
    name: Seq<char>,
    id: ScopeIdView,
) -> bool {
    &&& scopes.len() > 0
    &&& forall|k: int| 0 <= k < scopes.len() ==> 0 <= (#[trigger] scopes[k]).index < s.scopes.len()
    &&& forall|k: int|
        0 <= k < scopes.len() - 1 ==> s.scopes[(#[trigger] scopes[k]).index].parent == Some(
            scopes[k + 1],
        )
    &&& forall|k: int|
        0 <= k < scopes.len() - 1 ==> s.scopes[(#[trigger] scopes[k]).index].children.find(name)
            is None
    &&& s.scopes[scopes.last().index].children.find(name) == Some(id)
}

/// Whether one of the scopes before the last one is a function.
pub open spec fn leaves_function(s: AnalyzerView, scopes: Seq<ScopeIdView>) -> bool {
    exists|k: int|
        0 <= k < scopes.len() - 1 && s.scopes[(#[trigger] scopes[k]).index].kind
            == ScopeKind::Function
}

/// Whether a scope is that of a variable of a function.
pub open spec fn is_local_variable(s: AnalyzerView, id: ScopeIdView) -> bool {
    &&& s.scopes[id.index].kind == ScopeKind::Variable
    &&& s.scopes[id.index].payload matches PayloadView::Local(taipe)
    &&& !taipe.is_typedef()
    &&& s.get_enclosing_function(id) is Some
}

/// A name stands for what the nearest scope around declares under it, whatever the scopes further
/// out declare, and the search changes nothing. A local variable of a function around the one that
/// the name is used in is refused, and nothing else is.
#[verifier::spinoff_prover]
pub proof fn law_nearest_name_found(
    s: AnalyzerView,
    name: TokenView,
    scopes: Seq<ScopeIdView>,
    id: ScopeIdView,
    inner_fn: Option<ScopeIdView>,
    searched: Seq<Seq<char>>,
    fuel: int,
)
    requires
        is_nearest(s, scopes, name.text, id),
        0 <= id.index < s.scopes.len(),
        s.get_scope_eval_state(id) == Ok::<_, StopView>(ScopeEvalStateView::Visited),
        fuel >= 2 * scopes.len(),
    ensures
        s.resolve_name(name, scopes[0], inner_fn, searched, fuel).0 == s,
        s.resolve_name(name, scopes[0], inner_fn, searched, fuel).1 matches Ok(ctx) ==> stands_for(
            s,
            ctx,
            id,
            name.line_info,
        ),
        s.resolve_name(name, scopes[0], inner_fn, searched, fuel).1 is Ok && (inner_fn is Some
            || leaves_function(s, scopes)) ==> !is_local_variable(s, id),
        inner_fn is None && !leaves_function(s, scopes) ==> s.resolve_name(
            name,
            scopes[0],
            inner_fn,
            searched,
            fuel,
        ).1 == s.resolve_name(name, scopes.last(), None, searched, 2).1,
    decreases scopes.len(),
{
    reveal(AnalyzerView::resolve_name);
    reveal(AnalyzerView::resolve_member);
    reveal(AnalyzerView::find_child);
    reveal(AnalyzerView::member_context);
    reveal(AnalyzerView::search_outer);
    reveal(AnalyzerView::more_names);
    reveal(AnalyzerView::check_outer);
    reveal(AnalyzerView::check_variable);
    let here = scopes[0];
    if scopes.len() > 1 {
        let outer = scopes.drop_first();
        assert(outer[0] == scopes[1]);
        assert forall|k: int| 0 <= k < outer.len() implies #[trigger] outer[k] == scopes[k + 1] by {
        }
        assert(is_nearest(s, outer, name.text, id));
        let names = names_after(searched, s.scopes[here.index].children);
        let inner = if s.scopes[here.index].kind == ScopeKind::Function {
            Some(here)
        } else {
            inner_fn
        };
        assert(s.scopes[scopes[0].index].parent == Some(scopes[1]));
        assert(s.scopes[scopes[0].index].children.find(name.text) is None);
        law_nearest_name_found(s, name, outer, id, inner, names, fuel - 2);
        assert(s.resolve_name(name, here, inner_fn, searched, fuel) == s.resolve_name(
            name,
            outer[0],
            inner,
            names,
            fuel - 2,
        ));
        if leaves_function(s, scopes) && s.scopes[here.index].kind != ScopeKind::Function {
            let k = choose|k: int|
                0 <= k < scopes.len() - 1 && s.scopes[(#[trigger] scopes[k]).index].kind
                    == ScopeKind::Function;
            assert(outer[k - 1] == scopes[k]);
        }
        if leaves_function(s, outer) {
            let k = choose|k: int|
                0 <= k < outer.len() - 1 && s.scopes[(#[trigger] outer[k]).index].kind
                    == ScopeKind::Function;
            assert(scopes[k + 1] == outer[k]);
        }
        if s.scopes[here.index].kind == ScopeKind::Function {
            assert(leaves_function(s, scopes));
        }
        assert(outer.last() == scopes.last());
        assert(s.resolve_name(name, scopes.last(), None, searched, 2).1 == s.resolve_name(
            name,
            scopes.last(),
            None,
            names,
            2,
        ).1);
    } else {
        assert(scopes.last() == here);
    }
}

/// Any type.
pub open spec fn some_type(t: TypeView) -> bool {
    true
}

/// Whether a type is what a written type says, or this type made constant.
pub open spec fn declared_as(node: ast::TypeView, t: TypeView) -> bool {
    exists|found: TypeView| #[trigger]
        some_type(found) && type_means(node, found) && (t == found || t
            == found.remove_const().add_const())
}

/// Whether a value is that of an expression, in the type that it is assigned to.
pub open spec fn given_by(node: ExprView, value: ValueView) -> bool {
    exists|inner: ContextView| #[trigger]
        part(inner) && expr_means(node, inner) && assigned_from(
            inner,
            ContextView::make(false, inner.taipe, value),
        )
}

/// Whether what is known of a parameter is what is written: its type, and the default value if
/// one is written.
pub open spec fn param_means(param: ast::ParamView, info: ParamInfoView) -> bool {
    &&& declared_as(param.taipe, info.taipe)
    &&& param.expr matches Some(expr) ==> (info.default matches Some(value) && given_by(
        expr,
        value,
    ))
    &&& Ok::<_, StopView>(info.line_info) == param.line()
}

/// The number of parameters with a default value among the first ones.
pub open spec fn defaults_in(params: Seq<ast::ParamView>, n: int) -> int
    decreases n,
{
    if n <= 0 {
        0
    } else {
        defaults_in(params, n - 1) + if params[n - 1].expr is Some {
            1int
        } else {
            0int
        }
    }
}

#[verifier::spinoff_prover]
proof fn lemma_visit_param(
    s: AnalyzerView,
    param: ast::ParamView,
    prev: Option<Span>,
    fuel: int,
)
    ensures
        s.visit_param(param, prev, fuel).1 matches Ok(info) ==> param_means(param, info) && (
        prev is Some ==> param.expr is Some),
{
    reveal(AnalyzerView::visit_param);
    reveal(AnalyzerView::visit_type);
    reveal(AnalyzerView::visit_expr);
    let (t, x) = s.visit_type(param.taipe, fuel);
    law_analysis_keeps_meaning(s, arbitrary(), param.taipe, arbitrary(), fuel);
    if let (Ok(taipe), Ok(lhs_line)) = (x, param.taipe.line()) {
        assert(some_type(taipe));
        match param.expr {
            Some(expr) => {
                law_analysis_keeps_meaning(t, expr, param.taipe, arbitrary(), fuel);
                if let ((u, Ok(rhs)), Ok(right)) = (t.visit_expr(expr, fuel), expr.line()) {
                    assert(part(rhs));
                    lemma_assigned(u, Some((taipe, lhs_line)), param.eq_token, rhs, right);
                }
            },
            None => {
                reveal(AnalyzerView::resolve_assign);
            },
        }
    }
}

/// The parameters of a function are known in their order, each with its type and its default
/// value. After one with a default value all have one, and these are counted.
#[verifier::spinoff_prover]
pub proof fn law_parameters_visited(
    s: AnalyzerView,
    params: Seq<ast::ParamView>,
    infos: Seq<ParamInfoView>,
    prev: Option<Span>,
    count: usize,
    fuel: int,
    i: int,
)
    requires
        0 <= i <= params.len(),
        infos.len() == i,
        count == defaults_in(params, i),
        prev is Some <==> count > 0,
        forall|k: int| 0 <= k < i ==> param_means(#[trigger] params[k], infos[k]),
        forall|k: int, l: int|
            0 <= k < l < i && (#[trigger] params[k]).expr is Some ==> (#[trigger] params[l]).expr
                is Some,
        forall|k: int| 0 <= k < i && (#[trigger] params[k]).expr is Some ==> prev is Some,
    ensures
        s.visit_params(params, infos, prev, count, fuel, i).1 matches Ok(list) ==> {
            &&& list.infos.len() == params.len()
            &&& list.defaults == defaults_in(params, params.len() as int)
            &&& forall|k: int|
                0 <= k < params.len() ==> param_means(#[trigger] params[k], list.infos[k])
            &&& forall|k: int, l: int|
                0 <= k < l < params.len() && (#[trigger] params[k]).expr is Some ==> (
                #[trigger] params[l]).expr is Some
        },
    decreases params.len() - i,
{
    reveal(AnalyzerView::visit_params);
    reveal(AnalyzerView::visit_param);
    if i < params.len() {
        lemma_visit_param(s, params[i], prev, fuel);
        let (t, r) = s.visit_param(params[i], prev, fuel);
        if let Ok(info) = r {
            let more = infos.push(info);
            assert forall|k: int| 0 <= k < i + 1 implies param_means(
                #[trigger] params[k],
                more[k],
            ) by {
                if k < i {
                    assert(more[k] == infos[k]);
                }
            }
            if params[i].expr is None {
                law_parameters_visited(t, params, more, prev, count, fuel, i + 1);
            } else if count < usize::MAX {
                law_parameters_visited(
                    t,
                    params,
                    more,
                    Some(info.line_info),
                    (count + 1) as usize,
                    fuel,
                    i + 1,
                );
            }
        }
    }
}

/// The types of the parameters of a function are those that are known of them, in their order.
#[verifier::spinoff_prover]
pub proof fn law_parameters_declared(
    s: AnalyzerView,
    params: Seq<ast::ParamView>,
    infos: Seq<ParamInfoView>,
    table: TableView<ScopeIdView>,
    types: Seq<ParamView>,
    i: int,
)
    requires
        0 <= i <= infos.len(),
        types.len() == i,
        forall|k: int| 0 <= k < i ==> (#[trigger] types[k]).taipe == infos[k].taipe,
    ensures
        s.declare_params(params, infos, table, types, i).1 matches Ok(declared) ==> {
            &&& declared.types.len() == infos.len()
            &&& forall|k: int|
                0 <= k < infos.len() ==> (#[trigger] declared.types[k]).taipe == infos[k].taipe
        },
    decreases infos.len() - i,
{
    reveal(AnalyzerView::declare_params);
    if i < infos.len() && i < params.len() {
        if let (t, Ok(id)) = s.declare_param(infos[i], params[i].name) {
            law_parameters_declared(
                t,
                params,
                infos,
                entered(table, params[i].name.text, id),
                types.push(ParamView { taipe: infos[i].taipe }),
                i + 1,
            );
        }
    }
}

/// A parameter that is declared is a scope of the current function with its name, and what is
/// known of it is what was found.
pub proof fn law_parameter_scope(s: AnalyzerView, info: ParamInfoView, name: TokenView)
    requires
        s.wf(),
        name.kind != TokenKind::Underscore,
    ensures
        s.declare_param(info, name) matches (t, Ok(id)) ==> {
            &&& 0 <= id.index < t.scopes.len()
            &&& t.scopes[id.index].kind == ScopeKind::Param
            &&& t.scopes[id.index].payload == PayloadView::Param(info)
            &&& t.scopes[id.index].parent == Some(s.current_id())
            &&& t.scopes[id.index].name == name.text
            &&& t.scopes[id.index].line_info == name.line_info
        },
{
    reveal(AnalyzerView::declare_param);
    reveal(AnalyzerView::redeclared);
    reveal(AnalyzerView::sym_name);
    reveal(AnalyzerView::wf);
}

/// Whether a type is that of a function as it is written: the types of the parameters in their
/// order, and the type of the result, or none.
pub open spec fn function_means(
    params: Seq<ast::ParamView>,
    result: Option<ast::TypeView>,
    taipe: TypeView,
) -> bool {
    &&& taipe is Function
    &&& taipe->Function_params.len() == params.len()
    &&& forall|k: int|
        0 <= k < params.len() ==> declared_as(
            (#[trigger] params[k]).taipe,
            taipe->Function_params[k].taipe,
        )
    &&& match result {
        None => *taipe->Function_ret == TypeView::Void,
        Some(node) => type_means(node, *taipe->Function_ret),
    }
}

/// What is known of a function that has no body is what is written: its type, and how many of its
/// parameters have a default value.
#[verifier::spinoff_prover]
pub proof fn law_function_declared(
    s: AnalyzerView,
    id: ScopeIdView,
    lhs: Option<(TypeView, Span)>,
    eq_token: Option<TokenView>,
    line: Span,
    params: Seq<ast::ParamView>,
    result: Option<ast::TypeView>,
    fuel: int,
)
    requires
        0 <= id.index < s.scopes.len(),
    ensures
        s.visit_fun(id, lhs, eq_token, line, params, result, None, fuel) matches (t, Ok(r)) ==> {
            &&& r == id
            &&& id.index < t.scopes.len() ==> {
                &&& t.scopes[id.index].payload matches PayloadView::Function(info)
                &&& function_means(params, result, info.taipe)
                &&& info.default_param_count == defaults_in(params, params.len() as int)
            }
        },
{
    reveal(AnalyzerView::visit_fun);
    reveal(AnalyzerView::visit_params);
    reveal(AnalyzerView::visit_result);
    reveal(AnalyzerView::visit_fun_body);
    reveal(AnalyzerView::visit_type);
    let (s1, _) = s.push_current_scope(id);
    law_parameters_visited(s1, params, seq![], None, 0, fuel, 0);
    if let (s2, Ok(list)) = s1.visit_params(params, seq![], None, 0, fuel, 0) {
        law_parameters_declared(s2, params, list.infos, TableView::empty(), seq![], 0);
        if let (s3, Ok(declared)) = s2.declare_params(
            params,
            list.infos,
            TableView::empty(),
            seq![],
            0,
        ) {
            if let Some(node) = result {
                law_analysis_keeps_meaning(s3, arbitrary(), node, arbitrary(), fuel);
            }
            if let (s4, Ok(ret)) = s3.visit_result(result, fuel) {
                let taipe = TypeView::Function { ret: Box::new(ret), params: declared.types };
                assert forall|k: int| 0 <= k < params.len() implies declared_as(
                    (#[trigger] params[k]).taipe,
                    taipe->Function_params[k].taipe,
                ) by {
                    assert(param_means(params[k], list.infos[k]));
                    assert(declared.types[k].taipe == list.infos[k].taipe);
                }
                assert(function_means(params, result, taipe));
            }
        }
    }
}

/// Whether what is known of a field is what is written: its name and type, or the fields of a
/// struct or a union in their order.
#[verifier::opaque]
pub open spec fn field_means(field: FieldView, info: FieldInfoView) -> bool
    decreases field,
{
    match field {
        FieldView::Decl { name, taipe, .. } => {
            &&& info is Field
            &&& info->Field_name == name.text
            &&& info->Field_line_info == name.line_info
            &&& declared_as(taipe, info->Field_taipe)
        },
        FieldView::Compound { token, fields, .. } => match token.kind {
            TokenKind::Struct => {
                &&& info is Struct
                &&& info->Struct_0.len() == fields.len()
                &&& forall|k: int|
                    0 <= k < fields.len() ==> field_means(#[trigger] fields[k], info->Struct_0[k])
            },
            TokenKind::Union => {
                &&& info is Union
                &&& info->Union_0.len() == fields.len()
                &&& forall|k: int|
                    0 <= k < fields.len() ==> field_means(#[trigger] fields[k], info->Union_0[k])
            },
            _ => false,
        },
    }
}

#[verifier::spinoff_prover]
proof fn lemma_field_with_value(
    s: AnalyzerView,
    name: TokenView,
    found: TypeView,
    line: Span,
    eq_token: Option<TokenView>,
    value: ExprView,
    fuel: int,
)
    ensures
        s.field_with_value(name, found, line, eq_token, value, fuel).1 matches Ok(info) ==> {
            &&& info is Field
            &&& info->Field_name == name.text
            &&& info->Field_line_info == name.line_info
            &&& info->Field_taipe == found || info->Field_taipe
                == found.remove_const().add_const()
        },
{
    reveal(AnalyzerView::field_with_value);
    reveal(AnalyzerView::checked_field);
    if let (t, Ok(rhs)) = s.visit_expr(value, fuel) {
        if let (Ok(known), Ok(right)) = (t.compeval_trivial(rhs), value.line()) {
            lemma_assigned(t, Some((found, line)), eq_token, known, right);
        }
    }
}

#[verifier::spinoff_prover]
proof fn lemma_fields_visited(s: AnalyzerView, field: FieldView, is_alone: bool, fuel: int)
    ensures
        s.get_fields_impl(field, is_alone, fuel).1 matches Ok(info) ==> field_means(field, info),
    decreases fuel, 5nat, 0int,
{
    reveal(AnalyzerView::get_fields_impl);
    reveal(AnalyzerView::get_field_list);
    reveal(AnalyzerView::field_with_value);
    reveal(AnalyzerView::visit_type);
    reveal(AnalyzerView::checked_field);
    reveal(field_means);
    if fuel > 0 {
        match field {
            FieldView::Compound { line_info: _, token, fields } => {
                lemma_field_list(s, fields, token.kind == TokenKind::Struct, seq![], fuel - 1, 0);
            },
            FieldView::Decl { name, taipe, eq_token, expr } => {
                law_analysis_keeps_meaning(s, arbitrary(), taipe, arbitrary(), fuel - 1);
                if let ((t, Ok(found)), Ok(line)) = (s.visit_type(taipe, fuel - 1), taipe.line()) {
                    assert(some_type(found));
                    match expr {
                        Some(value) => {
                            lemma_field_with_value(
                                t,
                                name,
                                found,
                                line,
                                eq_token,
                                value,
                                fuel - 1,
                            );
                        },
                        None => {
                            if let Ok(default) = t.get_default_value(found, line) {
                                lemma_assigned(
                                    t,
                                    Some((found, line)),
                                    None,
                                    default,
                                    name.line_info,
                                );
                            }
                        },
                    }
                }
            },
        }
    }
}

#[verifier::spinoff_prover]
proof fn lemma_field_list(
    s: AnalyzerView,
    fields: Seq<FieldView>,
    is_struct: bool,
    infos: Seq<FieldInfoView>,
    fuel: int,
    i: int,
)
    requires
        0 <= i <= fields.len(),
        infos.len() == i,
        forall|k: int| 0 <= k < i ==> field_means(#[trigger] fields[k], infos[k]),
    ensures
        s.get_field_list(fields, is_struct, infos, fuel, i).1 matches Ok(info) ==> {
            let all = if is_struct {
                info->Struct_0
            } else {
                info->Union_0
            };
            &&& is_struct ==> info is Struct
            &&& !is_struct ==> info is Union
            &&& all.len() == fields.len()
            &&& forall|k: int| 0 <= k < fields.len() ==> field_means(#[trigger] fields[k], all[k])
        },
    decreases fuel, 6nat, fields.len() - i,
{
    reveal(AnalyzerView::get_field_list);
    reveal(AnalyzerView::get_fields_impl);
    if i < fields.len() {
        lemma_fields_visited(s, fields[i], fields.len() == 1, fuel);
        if let (t, Ok(info)) = s.get_fields_impl(fields[i], fields.len() == 1, fuel) {
            let more = infos.push(info);
            assert forall|k: int| 0 <= k < i + 1 implies field_means(
                #[trigger] fields[k],
                more[k],
            ) by {
                if k < i {
                    assert(more[k] == infos[k]);
                }
            }
            lemma_field_list(t, fields, is_struct, more, fuel, i + 1);
        }
    }
}

/// The fields of a struct or a union are those that are written, in their order, with their names
/// and types.
pub proof fn law_fields_visited(s: AnalyzerView, field: FieldView, fuel: int)
    ensures
        s.get_fields(field, fuel).1 matches Ok(info) ==> field_means(field, info),
{
    reveal(AnalyzerView::get_fields);
    reveal(AnalyzerView::get_fields_impl);
    lemma_fields_visited(s, field, false, fuel);
}

/// The size or the alignment that is asked for is that of the layout of the type: the type that
/// stands there, or the type of the value.
#[verifier::spinoff_prover]
pub proof fn law_measured(
    s: AnalyzerView,
    op: TokenView,
    expr: ExprView,
    inner: ContextView,
    line: Span,
    fuel: int,
)
    requires
        s.visit_expr(expr, fuel).1 == Ok::<_, StopView>(inner),
        expr.line() == Ok::<_, StopView>(line),
        op.kind == TokenKind::Sizeof || op.kind == TokenKind::Alignof,
    ensures
        s.visit_unary(op, expr, fuel).1 matches Ok(ctx) ==> {
            let t = s.visit_expr(expr, fuel).0;
            let taipe = if inner.taipe is Typedef {
                inner.value->Imm_0->Type_0
            } else {
                inner.taipe
            };
            &&& t.resolve_layout(taipe, line, 0xffff_ffff_ffff_ffff).1 matches Ok(layout)
            &&& ctx.value is Imm
            &&& ctx.taipe == s.visit_unary(op, expr, fuel).0.usize_type()
            &&& ctx.value->Imm_0.int_kind() == ctx.taipe.int_kind()
            &&& ctx.value->Imm_0.int_value() == if op.kind == TokenKind::Sizeof {
                layout.size as int
            } else {
                layout.alignment as int
            }
        },
{
    reveal(AnalyzerView::visit_unary);
    reveal(AnalyzerView::visit_expr);
    reveal(AnalyzerView::usize2usize);
    reveal(AnalyzerView::measured_type);
    reveal(AnalyzerView::type_value);
}

/// Whether the members of values of a type are those of another type: of the type itself or of
/// the type that is pointed to, constant or not.
pub open spec fn members_of(t: TypeView, base: TypeView, constant: bool) -> bool {
    let held = if constant {
        TypeView::Const(Box::new(base))
    } else {
        base
    };
    let pointer = TypeView::Pointer(Box::new(held));
    &&& !(base is Const) && !(base is Pointer)
    &&& t == held || t == pointer || t == TypeView::Const(Box::new(pointer))
}

/// A member is looked up in the type of the value before the point, or in the type that is pointed
/// to, and in a module among its declarations. It is constant where the value is, and can be
/// assigned where the value can.
#[verifier::spinoff_prover]
pub proof fn law_member_found(
    s: AnalyzerView,
    node: ExprView,
    expr: ExprView,
    name: TokenView,
    inner: ContextView,
    base: TypeView,
    constant: bool,
    fuel: int,
)
    requires
        s.visit_expr(expr, fuel).1 == Ok::<_, StopView>(inner),
        members_of(inner.taipe, base, constant),
    ensures
        ({
            let t = s.visit_expr(expr, fuel).0;
            let r = s.visit_member(node, expr, name, fuel).1;
            &&& base is Basic ==> (r matches Ok(ctx) ==> (t.get_member(
                base->Basic_0,
                name,
                fuel,
            ).1 matches Ok(member) && ctx.value == member.value && ctx.is_lvalue == inner.is_lvalue
                && ctx.taipe == if constant {
                TypeView::Const(Box::new(member.taipe))
            } else {
                member.taipe
            }))
            &&& base is Module && inner.value is Imm && inner.value->Imm_0 is Module ==> r
                == t.get_member(inner.value->Imm_0->Module_0, name, fuel).1
            &&& base is Tuple ==> r == t.tuple_member(node, name, base->Tuple_0, constant, inner)
            &&& !(base is Basic || base is Module || base is Tuple) ==> r is Err
        }),
{
    reveal(AnalyzerView::visit_member);
    reveal(AnalyzerView::visit_expr);
    reveal(AnalyzerView::get_member);
    reveal(AnalyzerView::member_base);
}

} // verus!
