use vstd::prelude::*;

use crate::ast::{
    arg_models, expr_models, field_models, param_models, type_models, Arg, ArgView, Expr, ExprView,
    Field, FieldView, Param, ParamView, Type, TypeView,
};
use crate::common::{CompileError, copy_errors};
use crate::parser::{goes_on, Parser};
use crate::parser::model::ParseState;
use crate::token::TokenKind;

verus! {

broadcast use crate::ast::group_models;

impl Parser {
    // expr_list ::= (expr (',' expr)* ','?)?
    pub(super) fn parse_expr_list(&mut self) -> (r: Vec<Expr>)
        requires
            old(self).wf(),
        ensures
            final(self).wf(),
            goes_on(old(self)@, final(self)@),
            old(self)@.expr_list(seq![]) == final(self)@.ok(expr_models(r@)),
            r@.len() > 0 ==> old(self)@.index < final(self)@.index,
            forall|i: int| 0 <= i < r@.len() ==> (#[trigger] expr_models(r@)[i]).has_span(),
        decreases old(self)@.left(), 24nat, 0nat,
    {
        proof {
            reveal(ParseState::expr_list);
            reveal(ParseState::logical);
        }
        let mut items: Vec<Expr> = Vec::new();
        let ghost goal = old(self)@.expr_list(seq![]);
        assert(expr_models(items@) == Seq::<ExprView>::empty());
        loop
            invariant
                self.wf(),
                goes_on(old(self)@, self@),
                items@.len() > 0 ==> old(self)@.index < self@.index,
                forall|i: int| 0 <= i < items@.len() ==> (
                    #[trigger] expr_models(items@)[i]
                ).has_span(),
                goal == old(self)@.expr_list(seq![]),
                self@.expr_list(expr_models(items@)) == goal,
            decreases self@.left(),
        {
            proof {
                reveal(ParseState::expr_list);
                reveal(ParseState::logical);
            }
            let ghost before = self@;
            let ghost read = items@;
            let save: usize = self.index;
            let errors_save: Vec<CompileError> = copy_errors(&self.errors);
            match self.parse_expr() {
                Ok(item) => {
                    assert(before.past(self@) == self@);
                    items.push(item);
                    assert(expr_models(items@) == expr_models(read).push(item@));
                    if !self.check(TokenKind::Comma) {
                        return items;
                    }
                },
                Err(_) => {
                    self.index = save;
                    self.errors = errors_save;
                    assert(self@ == before);
                    return items;
                },
            }
        }
    }

    // arg_list ::= (arg (',' arg)* ','?)?
    pub(super) fn parse_arg_list(&mut self) -> (r: Vec<Arg>)
        requires
            old(self).wf(),
        ensures
            final(self).wf(),
            goes_on(old(self)@, final(self)@),
            old(self)@.arg_list(seq![]) == final(self)@.ok(arg_models(r@)),
            r@.len() > 0 ==> old(self)@.index < final(self)@.index,
        decreases old(self)@.left(), 26nat, 0nat,
    {
        proof {
            reveal(ParseState::arg_list);
            reveal(ParseState::arg);
        }
        let mut items: Vec<Arg> = Vec::new();
        let ghost goal = old(self)@.arg_list(seq![]);
        assert(arg_models(items@) == Seq::<ArgView>::empty());
        loop
            invariant
                self.wf(),
                goes_on(old(self)@, self@),
                items@.len() > 0 ==> old(self)@.index < self@.index,
                goal == old(self)@.arg_list(seq![]),
                self@.arg_list(arg_models(items@)) == goal,
            decreases self@.left(),
        {
            proof {
                reveal(ParseState::arg_list);
                reveal(ParseState::arg);
            }
            let ghost before = self@;
            let ghost read = items@;
            let save: usize = self.index;
            let errors_save: Vec<CompileError> = copy_errors(&self.errors);
            match self.parse_arg() {
                Ok(item) => {
                    assert(before.past(self@) == self@);
                    items.push(item);
                    assert(arg_models(items@) == arg_models(read).push(item@));
                    if !self.check(TokenKind::Comma) {
                        return items;
                    }
                },
                Err(_) => {
                    self.index = save;
                    self.errors = errors_save;
                    assert(self@ == before);
                    return items;
                },
            }
        }
    }

    // type_list ::= (type (',' type)* ','?)?
    pub(super) fn parse_type_list(&mut self) -> (r: Vec<Type>)
        requires
            old(self).wf(),
        ensures
            final(self).wf(),
            goes_on(old(self)@, final(self)@),
            old(self)@.type_list(seq![]) == final(self)@.ok(type_models(r@)),
            r@.len() > 0 ==> old(self)@.index < final(self)@.index,
            forall|i: int| 0 <= i < r@.len() ==> (#[trigger] type_models(r@)[i]).has_span(),
        decreases old(self)@.left(), 4nat, 0nat,
    {
        proof {
            reveal(ParseState::type_list);
            reveal(ParseState::taipe);
        }
        let mut items: Vec<Type> = Vec::new();
        let ghost goal = old(self)@.type_list(seq![]);
        assert(type_models(items@) == Seq::<TypeView>::empty());
        loop
            invariant
                self.wf(),
                goes_on(old(self)@, self@),
                items@.len() > 0 ==> old(self)@.index < self@.index,
                forall|i: int| 0 <= i < items@.len() ==> (
                    #[trigger] type_models(items@)[i]
                ).has_span(),
                goal == old(self)@.type_list(seq![]),
                self@.type_list(type_models(items@)) == goal,
            decreases self@.left(),
        {
            proof {
                reveal(ParseState::type_list);
                reveal(ParseState::taipe);
            }
            let ghost before = self@;
            let ghost read = items@;
            let save: usize = self.index;
            let errors_save: Vec<CompileError> = copy_errors(&self.errors);
            match self.parse_type() {
                Ok(item) => {
                    assert(before.past(self@) == self@);
                    items.push(item);
                    assert(type_models(items@) == type_models(read).push(item@));
                    if !self.check(TokenKind::Comma) {
                        return items;
                    }
                },
                Err(_) => {
                    self.index = save;
                    self.errors = errors_save;
                    assert(self@ == before);
                    return items;
                },
            }
        }
    }

    // field_list ::= (field (',' field)* ','?)?
    pub(super) fn parse_field_list(&mut self) -> (r: Vec<Field>)
        requires
            old(self).wf(),
        ensures
            final(self).wf(),
            goes_on(old(self)@, final(self)@),
            old(self)@.field_list(seq![]) == final(self)@.ok(field_models(r@)),
            r@.len() > 0 ==> old(self)@.index < final(self)@.index,
        decreases old(self)@.left(), 8nat, 0nat,
    {
        proof {
            reveal(ParseState::field_list);
            reveal(ParseState::field);
        }
        let mut items: Vec<Field> = Vec::new();
        let ghost goal = old(self)@.field_list(seq![]);
        assert(field_models(items@) == Seq::<FieldView>::empty());
        loop
            invariant
                self.wf(),
                goes_on(old(self)@, self@),
                items@.len() > 0 ==> old(self)@.index < self@.index,
                goal == old(self)@.field_list(seq![]),
                self@.field_list(field_models(items@)) == goal,
            decreases self@.left(),
        {
            proof {
                reveal(ParseState::field_list);
                reveal(ParseState::field);
            }
            let ghost before = self@;
            let ghost read = items@;
            let save: usize = self.index;
            let errors_save: Vec<CompileError> = copy_errors(&self.errors);
            match self.parse_field() {
                Ok(item) => {
                    assert(before.past(self@) == self@);
                    items.push(item);
                    assert(field_models(items@) == field_models(read).push(item@));
                    if !self.check(TokenKind::Comma) {
                        return items;
                    }
                },
                Err(_) => {
                    self.index = save;
                    self.errors = errors_save;
                    assert(self@ == before);
                    return items;
                },
            }
        }
    }

    // param_list ::= (param (',' param)* ','?)?
    pub(super) fn parse_param_list(&mut self) -> (r: Vec<Param>)
        requires
            old(self).wf(),
        ensures
            final(self).wf(),
            goes_on(old(self)@, final(self)@),
            old(self)@.param_list(seq![]) == final(self)@.ok(param_models(r@)),
            r@.len() > 0 ==> old(self)@.index < final(self)@.index,
        decreases old(self)@.left(), 8nat, 0nat,
    {
        proof {
            reveal(ParseState::param_list);
            reveal(ParseState::param);
        }
        let mut items: Vec<Param> = Vec::new();
        let ghost goal = old(self)@.param_list(seq![]);
        assert(param_models(items@) == Seq::<ParamView>::empty());
        loop
            invariant
                self.wf(),
                goes_on(old(self)@, self@),
                items@.len() > 0 ==> old(self)@.index < self@.index,
                goal == old(self)@.param_list(seq![]),
                self@.param_list(param_models(items@)) == goal,
            decreases self@.left(),
        {
            proof {
                reveal(ParseState::param_list);
                reveal(ParseState::param);
            }
            let ghost before = self@;
            let ghost read = items@;
            let save: usize = self.index;
            let errors_save: Vec<CompileError> = copy_errors(&self.errors);
            match self.parse_param() {
                Ok(item) => {
                    assert(before.past(self@) == self@);
                    items.push(item);
                    assert(param_models(items@) == param_models(read).push(item@));
                    if !self.check(TokenKind::Comma) {
                        return items;
                    }
                },
                Err(_) => {
                    self.index = save;
                    self.errors = errors_save;
                    assert(self@ == before);
                    return items;
                },
            }
        }
    }
}

} // verus!
