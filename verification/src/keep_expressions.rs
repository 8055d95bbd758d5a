//! What expressions of the stack compiler keep.
use vstd::prelude::*;

use crate::ast::{Expression, HashEntry};
use crate::builtins::global_member;
use crate::code::Opcode;
use crate::codegen::{has_spread, CompilerView, PLACEHOLDER};
use crate::keep_assignments::{keeps_assign, keeps_update};
use crate::keep_functions::{keeps_body, keeps_class_value, keeps_function};
use crate::keep_statements::{keeps_condition, keeps_stmts};
use crate::keep::{rule_define_accessor, rule_gen_prefix};
use crate::object::ObjectView;
use crate::rules::{
    accessor_name, accessors_rule, appends_rule, called_global, define_accessor, delete_rule,
    expr_rule, exprs_rule, gen_accessors, gen_appends, gen_body, gen_condition, gen_delete,
    gen_expr, gen_exprs, gen_function, gen_if_value, gen_logical, gen_pairs, gen_sequence,
    gen_stmts, if_value_rule, logical_rule, pairs_rule, parameters, plain_entries, sequence_rule,
    setter_parameters,
};
use crate::sound::{
    grows, growth_is_sound, is_sound, jump_stays, lemma_grows_all, lemma_grows_self,
    step_after_temp, step_assign_top, step_emit, step_emit0, step_emit1, step_fail,
    step_get_property, step_load, step_name_slot, step_patch, step_push_float, step_push_int,
    step_push_name, step_push_object, step_push_property, step_push_string, step_remove_last_pop,
    step_store,
};

verus! {

pub(crate) proof fn keeps_exprs(s: CompilerView, items: Vec<Expression>, i: int)
    requires
        is_sound(s),
    ensures
        ({
            let r = gen_exprs(s, items, i);
            &&& grows(s, r)
            &&& forall|a: CompilerView| #[trigger] grows(a, s) ==> grows(a, r)
        }),
    decreases items, 1int, items@.len() - i, 1int,
{
    broadcast use growth_is_sound;

    lemma_grows_self(s);
    let first = s;
    let r = gen_exprs(s, items, i);
    reveal(exprs_rule);
    assert(r == exprs_rule(s, items, i));
    if 0 <= i < items@.len() {
        keeps_expr(s, items@[i]);
        keeps_exprs(gen_expr(s, items@[i]), items, i + 1);
    }
    assert(grows(first, r));
    lemma_grows_all(first, r);
}

pub(crate) proof fn keeps_sequence(s: CompilerView, items: Vec<Expression>, i: int)
    requires
        is_sound(s),
    ensures
        ({
            let r = gen_sequence(s, items, i);
            &&& grows(s, r)
            &&& forall|a: CompilerView| #[trigger] grows(a, s) ==> grows(a, r)
        }),
    decreases items, 1int, items@.len() - i, 1int,
{
    broadcast use {growth_is_sound, step_emit0};

    lemma_grows_self(s);
    let first = s;
    let r = gen_sequence(s, items, i);
    reveal(sequence_rule);
    assert(r == sequence_rule(s, items, i));
    if 0 <= i < items@.len() {
        keeps_expr(s, items@[i]);
        let s = gen_expr(s, items@[i]);
        keeps_sequence(
            if i + 1 < items@.len() {
                s.emit0(Opcode::OpPop)
            } else {
                s
            },
            items,
            i + 1,
        );
    }
    assert(grows(first, r));
    lemma_grows_all(first, r);
}

pub(crate) proof fn keeps_appends(s: CompilerView, items: Vec<Expression>, i: int)
    requires
        is_sound(s),
    ensures
        ({
            let r = gen_appends(s, items, i);
            &&& grows(s, r)
            &&& forall|a: CompilerView| #[trigger] grows(a, s) ==> grows(a, r)
        }),
    decreases items, 1int, items@.len() - i, 1int,
{
    broadcast use {growth_is_sound, step_emit0};

    lemma_grows_self(s);
    let first = s;
    let r = gen_appends(s, items, i);
    reveal(appends_rule);
    assert(r == appends_rule(s, items, i));
    if 0 <= i < items@.len() {
        match items@[i] {
            Expression::Spread { value } => keeps_expr(s, *value),
            _ => keeps_expr(s, items@[i]),
        }
        let s = match items@[i] {
            Expression::Spread { value } => gen_expr(s, *value).emit0(Opcode::OpAppendSpread),
            _ => gen_expr(s, items@[i]).emit0(Opcode::OpAppendElement),
        };
        keeps_appends(s, items, i + 1);
    }
    assert(grows(first, r));
    lemma_grows_all(first, r);
}

pub(crate) proof fn keeps_expr(s: CompilerView, e: Expression)
    requires
        is_sound(s),
    ensures
        ({
            let r = gen_expr(s, e);
            &&& grows(s, r)
            &&& forall|a: CompilerView| #[trigger] grows(a, s) ==> grows(a, r)
        }),
    decreases e, 7int, 0int, 0int,
{
    broadcast use {
        growth_is_sound,
        step_emit,
        step_patch,
        step_emit0,
        step_emit1,
        step_fail,
        step_after_temp,
        step_push_object,
        step_push_int,
        step_push_float,
        step_push_string,
        step_assign_top,
        step_push_name,
        step_get_property,
        step_push_property,
        rule_gen_prefix,
        jump_stays,
    };

    lemma_grows_self(s);
    let first = s;
    let r = gen_expr(s, e);
    reveal(expr_rule);
    match e {
        Expression::Array(items) => {
            if has_spread(items@) {
                keeps_appends(s.emit1(Opcode::OpArray, 0), items, 0);
            } else {
                keeps_exprs(s, items, 0);
            }
        },
        Expression::Hash(entries) => {
            keeps_pairs(s, entries, 0);
            let s = gen_pairs(s, entries, 0);
            let s = s.emit1(
                Opcode::OpHash,
                ((plain_entries(entries@, entries@.len() as int) % 0x8000) * 2) as u16,
            );
            keeps_accessors(s, entries, 0);
        },
        Expression::Prefix { operator, right } => keeps_expr(s, *right),
        Expression::Typeof { value } => {
            match *value {
                Expression::Identifier(name) => {
                    if s.locals.has(name@) || s.globals.has(name@)
                    || global_member(name@) is Some || s.is_function_scope {
                        keeps_expr(s, *value);
                    }
                },
                _ => keeps_expr(s, *value),
            }
        },
        Expression::Void { value } => keeps_expr(s, *value),
        Expression::Delete { value } => keeps_delete(s, *value),
        Expression::Await { value } => keeps_expr(s, *value),
        Expression::Yield { value, .. } => keeps_expr(s, *value),
        Expression::Infix { left, operator, right } => {
            if operator@ == ","@ {
                keeps_expr(s, *left);
                keeps_expr(gen_expr(s, *left).emit0(Opcode::OpPop), *right);
            } else if operator@ == "&&"@ || operator@ == "||"@ || operator@ == "??"@ {
                keeps_logical(s, e);
            } else {
                keeps_expr(s, *left);
                keeps_expr(gen_expr(s, *left), *right);
            }
        },
        Expression::Sequence(items) => keeps_sequence(s, items, 0),
        Expression::Assign { .. } => keeps_assign(s, e),
        Expression::Update { .. } => keeps_update(s, e),
        Expression::If { .. } => keeps_if_value(s, e),
        Expression::Index { left, index } => {
            match *index {
                Expression::String(prop) => {
                    match *left {
                        Expression::Identifier(name) => {},
                        _ => keeps_expr(s, *left),
                    }
                },
                _ => {
                    keeps_expr(s, *left);
                    keeps_expr(gen_expr(s, *left), *index);
                },
            }
        },
        Expression::OptionalIndex { left, index } => {
            let held = s.temp("opt"@);
            keeps_expr(s.after_temp(), *left);
            let s = gen_expr(s.after_temp(), *left).assign_top(held);
            let s = s.push_name(held).emit0(Opcode::OpIsNullish);
            let present = s.here();
            let s = s.emit1(Opcode::OpJumpNotTruthy, PLACEHOLDER).emit0(Opcode::OpUndefined);
            let s = s.emit1(Opcode::OpJump, PLACEHOLDER);
            let s = s.patch(present, 0, s.here()).push_name(held);
            keeps_expr(s, *index);
        },
        Expression::OptionalCall { function, arguments } => {
            let held = s.temp("optcall"@);
            keeps_expr(s.after_temp(), *function);
            let s = gen_expr(s.after_temp(), *function).assign_top(held);
            let s = s.push_name(held).emit0(Opcode::OpIsNullish);
            let present = s.here();
            let s = s.emit1(Opcode::OpJumpNotTruthy, PLACEHOLDER).emit0(Opcode::OpUndefined);
            let s = s.emit1(Opcode::OpJump, PLACEHOLDER);
            let s = s.patch(present, 0, s.here()).push_name(held);
            if has_spread(arguments@) {
                keeps_appends(s.emit1(Opcode::OpArray, 0), arguments, 0);
            } else {
                keeps_exprs(s, arguments, 0);
            }
        },
        Expression::Call { function, arguments } => {
            if has_spread(arguments@) {
                keeps_expr(s, *function);
                let s = gen_expr(s, *function).emit1(Opcode::OpArray, 0);
                keeps_appends(s, arguments, 0);
            } else {
                match called_global(s, *function) {
                    Some(slot) => keeps_exprs(s, arguments, 0),
                    None => {
                        keeps_expr(s, *function);
                        keeps_exprs(gen_expr(s, *function), arguments, 0);
                    },
                }
            }
        },
        Expression::New { callee, arguments } => {
            keeps_expr(s, *callee);
            let s = gen_expr(s, *callee);
            if has_spread(arguments@) {
                keeps_appends(s.emit1(Opcode::OpArray, 0), arguments, 0);
            } else {
                keeps_exprs(s, arguments, 0);
            }
        },
        Expression::Function { parameters, body, is_async, is_generator, .. } => {
            keeps_function(s, parameters, body, true, is_async, is_generator);
        },
        Expression::Class { name, extends, members } => {
            keeps_class_value(s, name, extends, members);
        },
        _ => {},
    }
    assert(grows(first, r));
    lemma_grows_all(first, r);
}

pub(crate) proof fn keeps_logical(s: CompilerView, e: Expression)
    requires
        is_sound(s),
    ensures
        ({
            let r = gen_logical(s, e);
            &&& grows(s, r)
            &&& forall|a: CompilerView| #[trigger] grows(a, s) ==> grows(a, r)
        }),
    decreases e, 4int, 0int, 1int,
{
    broadcast use {
        growth_is_sound,
        step_patch,
        step_emit0,
        step_emit1,
        step_after_temp,
        step_assign_top,
        step_push_name,
        jump_stays,
    };

    lemma_grows_self(s);
    let first = s;
    let r = gen_logical(s, e);
    reveal(logical_rule);
    assert(r == logical_rule(s, e));
    match e {
        Expression::Infix { left, operator, right } => {
            let held = s.temp("logic"@);
            keeps_expr(s.after_temp(), *left);
            let s = gen_expr(s.after_temp(), *left).assign_top(held).push_name(held);
            if operator@ == "||"@ {
                let eval_right = s.here();
                let s = s.emit1(Opcode::OpJumpNotTruthy, PLACEHOLDER).push_name(held);
                let s = s.emit1(Opcode::OpJump, PLACEHOLDER);
                keeps_expr(s.patch(eval_right, 0, s.here()), *right);
            } else {
                let s = if operator@ == "&&"@ {
                    s
                } else {
                    s.emit0(Opcode::OpIsNullish)
                };
                let s = s.emit1(Opcode::OpJumpNotTruthy, PLACEHOLDER);
                keeps_expr(s, *right);
            }
        },
        _ => {},
    }
    assert(grows(first, r));
    lemma_grows_all(first, r);
}

pub(crate) proof fn keeps_if_value(s: CompilerView, e: Expression)
    requires
        is_sound(s),
    ensures
        ({
            let r = gen_if_value(s, e);
            &&& grows(s, r)
            &&& forall|a: CompilerView| #[trigger] grows(a, s) ==> grows(a, r)
        }),
    decreases e, 4int, 0int, 1int,
{
    broadcast use {
        growth_is_sound,
        step_patch,
        step_emit0,
        step_emit1,
        step_remove_last_pop,
        jump_stays,
    };

    lemma_grows_self(s);
    let first = s;
    let r = gen_if_value(s, e);
    reveal(if_value_rule);
    assert(r == if_value_rule(s, e));
    match e {
        Expression::If { condition, consequence, alternative } => {
            keeps_condition(s, *condition);
            let (s, jump, offset) = gen_condition(s, *condition);
            keeps_stmts(s, consequence, 0);
            let s = gen_stmts(s, consequence, 0).remove_last_pop();
            let s = s.emit1(Opcode::OpJump, PLACEHOLDER);
            let s = s.patch(jump, offset, s.here());
            match alternative {
                Some(alt) => keeps_stmts(s, alt, 0),
                _ => {},
            }
        },
        _ => {},
    }
    assert(grows(first, r));
    lemma_grows_all(first, r);
}

pub(crate) proof fn keeps_delete(s: CompilerView, value: Expression)
    requires
        is_sound(s),
    ensures
        ({
            let r = gen_delete(s, value);
            &&& grows(s, r)
            &&& forall|a: CompilerView| #[trigger] grows(a, s) ==> grows(a, r)
        }),
    decreases value, 8int, 0int, 1int,
{
    broadcast use {growth_is_sound, step_emit0, step_name_slot, step_load, step_store};

    lemma_grows_self(s);
    let first = s;
    let r = gen_delete(s, value);
    reveal(delete_rule);
    assert(r == delete_rule(s, value));
    match value {
        Expression::Index { left, index } => {
            match *left {
                Expression::Identifier(name) => {
                    if s.locals.has(name@) || s.globals.has(name@) {
                        let (s, slot) = s.name_slot(name@);
                        keeps_expr(s.load(slot), *index);
                    }
                },
                _ => {
                    keeps_expr(s, *left);
                    keeps_expr(gen_expr(s, *left), *index);
                },
            }
        },
        Expression::Identifier(_) => {},
        _ => keeps_expr(s, value),
    }
    assert(grows(first, r));
    lemma_grows_all(first, r);
}

pub(crate) proof fn keeps_pairs(s: CompilerView, entries: Vec<HashEntry>, i: int)
    requires
        is_sound(s),
    ensures
        ({
            let r = gen_pairs(s, entries, i);
            &&& grows(s, r)
            &&& forall|a: CompilerView| #[trigger] grows(a, s) ==> grows(a, r)
        }),
    decreases entries, 1int, entries@.len() - i, 1int,
{
    broadcast use {growth_is_sound, step_push_object, step_push_string};

    lemma_grows_self(s);
    let first = s;
    let r = gen_pairs(s, entries, i);
    reveal(pairs_rule);
    assert(r == pairs_rule(s, entries, i));
    if 0 <= i < entries@.len() {
        match entries@[i] {
            HashEntry::KeyValue { key, value } => {
                keeps_expr(s, key);
                keeps_expr(gen_expr(s, key), value);
            },
            HashEntry::Spread(value) => keeps_expr(s.push_string("__fl_rest__"@), value),
            HashEntry::Method { key, parameters, body, is_async, is_generator } => {
                keeps_expr(s, key);
                let s = gen_expr(s, key);
                keeps_function(s, parameters, body, false, is_async, is_generator);
            },
            _ => {},
        }
        let s = match entries@[i] {
            HashEntry::KeyValue { key, value } => gen_expr(gen_expr(s, key), value),
            HashEntry::Spread(value) => gen_expr(s.push_string("__fl_rest__"@), value),
            HashEntry::Method { key, parameters, body, is_async, is_generator } => {
                let s = gen_expr(s, key);
                let (s, f) = gen_function(s, parameters, body, false, is_async, is_generator);
                s.push_object(ObjectView::Function(f))
            },
            _ => s,
        };
        keeps_pairs(s, entries, i + 1);
    }
    assert(grows(first, r));
    lemma_grows_all(first, r);
}

pub(crate) proof fn keeps_accessors(s: CompilerView, entries: Vec<HashEntry>, i: int)
    requires
        is_sound(s),
    ensures
        ({
            let r = gen_accessors(s, entries, i);
            &&& grows(s, r)
            &&& forall|a: CompilerView| #[trigger] grows(a, s) ==> grows(a, r)
        }),
    decreases entries, 1int, entries@.len() - i, 1int,
{
    broadcast use {growth_is_sound, step_fail, rule_define_accessor};

    lemma_grows_self(s);
    let first = s;
    let r = gen_accessors(s, entries, i);
    reveal(accessors_rule);
    assert(r == accessors_rule(s, entries, i));
    if 0 <= i < entries@.len() {
        match entries@[i] {
            HashEntry::Getter { key, body } => {
                match accessor_name(key) {
                    Some(name) => keeps_body(s, Seq::empty(), None, body, true, false, false),
                    _ => {},
                }
            },
            HashEntry::Setter { key, parameter, body } => {
                match accessor_name(key) {
                    Some(name) => {
                        let p = setter_parameters(parameter);
                        if p.err is None {
                            keeps_body(s, p.names, p.rest, body, true, false, false);
                        }
                    },
                    _ => {},
                }
            },
            _ => {},
        }
        let s = match entries@[i] {
            HashEntry::Getter { key, body } => match accessor_name(key) {
                Some(name) => {
                    let (s, f) = gen_body(s, Seq::empty(), None, body, true, false, false);
                    define_accessor(s, f, name, 0)
                },
                None => s.fail("computed getter/setter keys not yet supported in stack compiler"@),
            },
            HashEntry::Setter { key, parameter, body } => match accessor_name(key) {
                Some(name) => {
                    let p = setter_parameters(parameter);
                    if p.err is Some {
                        s.fail(p.err->0)
                    } else {
                        let (s, f) = gen_body(s, p.names, p.rest, body, true, false, false);
                        define_accessor(s, f, name, 1)
                    }
                },
                None => s.fail("computed getter/setter keys not yet supported in stack compiler"@),
            },
            _ => s,
        };
        keeps_accessors(s, entries, i + 1);
    }
    assert(grows(first, r));
    lemma_grows_all(first, r);
}

} // verus!
