//! What expressions of the register compiler leave as it is.
use vstd::prelude::*;

use crate::ast::{Expression, HashEntry};
use crate::builtins::global_member;
use crate::codegen::{has_spread, PLACEHOLDER};
use crate::object::ObjectView;
use crate::rcode::ROp;
use crate::rcodegen::{nth_reg, RView};
use crate::rextend::{
    builds_on, ext_add_constant, ext_call_dst, ext_copy_reg, ext_emit, ext_fail, ext_finish_call,
    ext_get_name_prop, ext_get_prop, ext_here, ext_load_const, ext_load_float, ext_load_function,
    ext_load_int, ext_load_name, ext_load_object, ext_load_string, ext_patch, ext_set_temps,
    ext_take_temp, extension_is_extendable, is_extendable, lemma_extends_all, lemma_extends_self,
};
use crate::rextend_assignments::{extends_assign, extends_update};
use crate::rextend_functions::{extends_body, extends_class, extends_function};
use crate::rextend_rules::{
    ext_add_accessor, ext_call_method, ext_define_accessors, ext_init_class, ext_rgen_prefix,
    ext_test_nullish, ext_write_back_name,
};
use crate::rextend_statements::{extends_block, extends_condition};
use crate::rrules::{
    add_accessor, appends_rrule, call_rrule, called_method, copy_last, delete_rrule, expr_rrule,
    hash_functions_rrule, hash_rrule, if_rrule, logical_rrule, member_call_rrule, method_at,
    packed_rrule, pair_reg, pairs_rrule, plain_walk, rcalled_global, rgen_appends, rgen_block,
    rgen_body, rgen_call, rgen_condition, rgen_delete, rgen_expr, rgen_expr_into, rgen_function,
    rgen_hash, rgen_hash_functions, rgen_if, rgen_logical, rgen_member_call, rgen_packed,
    rgen_pairs, rgen_sequence, sequence_rrule, test_nullish, with_accessor, HashFunctions,
};
use crate::rules::{blank_function, parameters, setter_parameters};

verus! {

pub(crate) proof fn extends_expr(s: RView, e: Expression)
    requires
        is_extendable(s),
    ensures
        ({
            let r = rgen_expr(s, e);
            &&& builds_on(s, r)
            &&& forall|a: RView| #[trigger] builds_on(a, s) ==> builds_on(a, r)
            &&& s.instructions.len() <= r.instructions.len()
            &&& r.loop_stack.len() == s.loop_stack.len()
            &&& r.try_stack.len() == s.try_stack.len()
        }),
    decreases e, 8int, 0int, 0int,
{
    broadcast use {ext_take_temp, extension_is_extendable};

    lemma_extends_self(s);
    let first = s;
    let r = rgen_expr(s, e);
    extends_expr_into(s.take_temp(), e, s.next_temp);
    assert(builds_on(first, r));
    lemma_extends_all(first, r);
}

pub(crate) proof fn extends_packed(s: RView, items: Vec<Expression>, base: u16, i: int)
    requires
        is_extendable(s),
    ensures
        ({
            let r = rgen_packed(s, items, base, i);
            &&& builds_on(s, r)
            &&& forall|a: RView| #[trigger] builds_on(a, s) ==> builds_on(a, r)
            &&& s.instructions.len() <= r.instructions.len()
            &&& r.loop_stack.len() == s.loop_stack.len()
            &&& r.try_stack.len() == s.try_stack.len()
        }),
    decreases items, 1int, items@.len() - i, 1int,
{
    broadcast use {ext_take_temp, ext_set_temps, extension_is_extendable};

    lemma_extends_self(s);
    let first = s;
    let r = rgen_packed(s, items, base, i);
    reveal(packed_rrule);
    assert(r == packed_rrule(s, items, base, i));
    if 0 <= i < items@.len() {
        let r = nth_reg(base, i as usize);
        extends_expr_into(s.set_temps(r).take_temp(), items@[i], r);
        extends_packed(rgen_expr_into(s.set_temps(r).take_temp(), items@[i], r), items, base, i + 1);
    }
    assert(builds_on(first, r));
    lemma_extends_all(first, r);
}

pub(crate) proof fn extends_appends(s: RView, items: Vec<Expression>, list: u16, i: int)
    requires
        is_extendable(s),
    ensures
        ({
            let r = rgen_appends(s, items, list, i);
            &&& builds_on(s, r)
            &&& forall|a: RView| #[trigger] builds_on(a, s) ==> builds_on(a, r)
            &&& s.instructions.len() <= r.instructions.len()
            &&& r.loop_stack.len() == s.loop_stack.len()
            &&& r.try_stack.len() == s.try_stack.len()
        }),
    decreases items, 1int, items@.len() - i, 1int,
{
    broadcast use {ext_emit, extension_is_extendable};

    lemma_extends_self(s);
    let first = s;
    let r = rgen_appends(s, items, list, i);
    reveal(appends_rrule);
    assert(r == appends_rrule(s, items, list, i));
    if 0 <= i < items@.len() {
        let v = s.next_temp;
        match items@[i] {
            Expression::Spread { value } => extends_expr(s, *value),
            _ => extends_expr(s, items@[i]),
        }
        let s = match items@[i] {
            Expression::Spread { value } => rgen_expr(s, *value).emit(
                ROp::AppendSpread,
                seq![list, v],
            ),
            _ => rgen_expr(s, items@[i]).emit(ROp::AppendElement, seq![list, v]),
        };
        extends_appends(s, items, list, i + 1);
    }
    assert(builds_on(first, r));
    lemma_extends_all(first, r);
}

pub(crate) proof fn extends_sequence(s: RView, items: Vec<Expression>, dst: u16, i: int)
    requires
        is_extendable(s),
    ensures
        ({
            let r = rgen_sequence(s, items, dst, i);
            &&& builds_on(s, r)
            &&& forall|a: RView| #[trigger] builds_on(a, s) ==> builds_on(a, r)
            &&& s.instructions.len() <= r.instructions.len()
            &&& r.loop_stack.len() == s.loop_stack.len()
            &&& r.try_stack.len() == s.try_stack.len()
        }),
    decreases items, 1int, items@.len() - i, 1int,
{
    broadcast use extension_is_extendable;

    lemma_extends_self(s);
    let first = s;
    let r = rgen_sequence(s, items, dst, i);
    reveal(sequence_rrule);
    assert(r == sequence_rrule(s, items, dst, i));
    if 0 <= i < items@.len() {
        extends_expr_into(s, items@[i], dst);
        extends_expr(s, items@[i]);
        extends_sequence(
            if i + 1 == items@.len() {
                rgen_expr_into(s, items@[i], dst)
            } else {
                rgen_expr(s, items@[i])
            },
            items,
            dst,
            i + 1,
        );
    }
    assert(builds_on(first, r));
    lemma_extends_all(first, r);
}

proof fn extends_array_expr(s: RView, e: Expression, dst: u16)
    requires
        is_extendable(s),
        s.err is None,
        e is Array,
    ensures
        ({
            let r = rgen_expr_into(s, e, dst);
            &&& builds_on(s, r)
            &&& s.instructions.len() <= r.instructions.len()
            &&& r.loop_stack.len() == s.loop_stack.len()
            &&& r.try_stack.len() == s.try_stack.len()
        }),
    decreases e, 6int, 1int, 0int,
{
    broadcast use {ext_emit, extension_is_extendable};

    lemma_extends_self(s);
    let first = s;
    let r = rgen_expr_into(s, e, dst);
    reveal(expr_rrule);
    assert(r == expr_rrule(s, e, dst));
    match e {
        Expression::Array(items) => {
            if has_spread(items@) {
                extends_appends(s.emit(ROp::Array, seq![dst, 0, 0]), items, dst, 0);
            } else {
                let base = s.next_temp;
                extends_packed(s, items, base, 0);
            }
        },
        _ => {},
    }
    assert(builds_on(first, r));
}

proof fn extends_prefix_expr(s: RView, e: Expression, dst: u16)
    requires
        is_extendable(s),
        s.err is None,
        e is Prefix,
    ensures
        ({
            let r = rgen_expr_into(s, e, dst);
            &&& builds_on(s, r)
            &&& s.instructions.len() <= r.instructions.len()
            &&& r.loop_stack.len() == s.loop_stack.len()
            &&& r.try_stack.len() == s.try_stack.len()
        }),
    decreases e, 6int, 1int, 0int,
{
    broadcast use {ext_set_temps, ext_rgen_prefix, extension_is_extendable};

    lemma_extends_self(s);
    let first = s;
    let r = rgen_expr_into(s, e, dst);
    reveal(expr_rrule);
    assert(r == expr_rrule(s, e, dst));
    match e {
        Expression::Prefix { operator, right } => extends_expr(s, *right),
        _ => {},
    }
    assert(builds_on(first, r));
}

proof fn extends_typeof_expr(s: RView, e: Expression, dst: u16)
    requires
        is_extendable(s),
        s.err is None,
        e is Typeof,
    ensures
        ({
            let r = rgen_expr_into(s, e, dst);
            &&& builds_on(s, r)
            &&& s.instructions.len() <= r.instructions.len()
            &&& r.loop_stack.len() == s.loop_stack.len()
            &&& r.try_stack.len() == s.try_stack.len()
        }),
    decreases e, 6int, 1int, 0int,
{
    broadcast use {ext_emit, ext_take_temp, ext_set_temps, extension_is_extendable};

    lemma_extends_self(s);
    let first = s;
    let r = rgen_expr_into(s, e, dst);
    reveal(expr_rrule);
    assert(r == expr_rrule(s, e, dst));
    match e {
        Expression::Typeof { value } => {
            let known = match *value {
                Expression::Identifier(name) => s.locals.has(name@) || s.globals.has(name@)
                    || global_member(name@) is Some || s.is_function_scope,
                _ => true,
            };
            if known {
                extends_expr(s, *value);
            }
        },
        _ => {},
    }
    assert(builds_on(first, r));
}

proof fn extends_void_expr(s: RView, e: Expression, dst: u16)
    requires
        is_extendable(s),
        s.err is None,
        e is Void,
    ensures
        ({
            let r = rgen_expr_into(s, e, dst);
            &&& builds_on(s, r)
            &&& s.instructions.len() <= r.instructions.len()
            &&& r.loop_stack.len() == s.loop_stack.len()
            &&& r.try_stack.len() == s.try_stack.len()
        }),
    decreases e, 6int, 1int, 0int,
{
    broadcast use {ext_emit, ext_set_temps, extension_is_extendable};

    lemma_extends_self(s);
    let first = s;
    let r = rgen_expr_into(s, e, dst);
    reveal(expr_rrule);
    assert(r == expr_rrule(s, e, dst));
    match e {
        Expression::Void { value } => extends_expr(s, *value),
        _ => {},
    }
    assert(builds_on(first, r));
}

proof fn extends_await_expr(s: RView, e: Expression, dst: u16)
    requires
        is_extendable(s),
        s.err is None,
        e is Await,
    ensures
        ({
            let r = rgen_expr_into(s, e, dst);
            &&& builds_on(s, r)
            &&& s.instructions.len() <= r.instructions.len()
            &&& r.loop_stack.len() == s.loop_stack.len()
            &&& r.try_stack.len() == s.try_stack.len()
        }),
    decreases e, 6int, 1int, 0int,
{
    broadcast use {ext_emit, extension_is_extendable};

    lemma_extends_self(s);
    let first = s;
    let r = rgen_expr_into(s, e, dst);
    reveal(expr_rrule);
    assert(r == expr_rrule(s, e, dst));
    match e {
        Expression::Await { value } => extends_expr(s, *value),
        _ => {},
    }
    assert(builds_on(first, r));
}

proof fn extends_yield_expr(s: RView, e: Expression, dst: u16)
    requires
        is_extendable(s),
        s.err is None,
        e is Yield,
    ensures
        ({
            let r = rgen_expr_into(s, e, dst);
            &&& builds_on(s, r)
            &&& s.instructions.len() <= r.instructions.len()
            &&& r.loop_stack.len() == s.loop_stack.len()
            &&& r.try_stack.len() == s.try_stack.len()
        }),
    decreases e, 6int, 1int, 0int,
{
    broadcast use {ext_emit, extension_is_extendable};

    lemma_extends_self(s);
    let first = s;
    let r = rgen_expr_into(s, e, dst);
    reveal(expr_rrule);
    assert(r == expr_rrule(s, e, dst));
    match e {
        Expression::Yield { value, .. } => extends_expr(s, *value),
        _ => {},
    }
    assert(builds_on(first, r));
}

proof fn extends_infix_expr(s: RView, e: Expression, dst: u16)
    requires
        is_extendable(s),
        s.err is None,
        e is Infix,
    ensures
        ({
            let r = rgen_expr_into(s, e, dst);
            &&& builds_on(s, r)
            &&& s.instructions.len() <= r.instructions.len()
            &&& r.loop_stack.len() == s.loop_stack.len()
            &&& r.try_stack.len() == s.try_stack.len()
        }),
    decreases e, 6int, 1int, 0int,
{
    broadcast use {ext_fail, ext_emit, ext_set_temps, extension_is_extendable};

    lemma_extends_self(s);
    let first = s;
    let r = rgen_expr_into(s, e, dst);
    reveal(expr_rrule);
    assert(r == expr_rrule(s, e, dst));
    match e {
        Expression::Infix { left, operator, right } => {
            if operator@ == ","@ {
                let saved = s.next_temp;
                extends_expr(s, *left);
                extends_expr_into(rgen_expr(s, *left).set_temps(saved), *right, dst);
            } else if operator@ == "&&"@ || operator@ == "||"@ || operator@ == "??"@ {
                extends_logical(s, e, dst);
            } else {
                extends_expr(s, *left);
                let s = rgen_expr(s, *left);
                extends_expr(s, *right);
            }
        },
        _ => {},
    }
    assert(builds_on(first, r));
}

proof fn extends_index_expr(s: RView, e: Expression, dst: u16)
    requires
        is_extendable(s),
        s.err is None,
        e is Index,
    ensures
        ({
            let r = rgen_expr_into(s, e, dst);
            &&& builds_on(s, r)
            &&& s.instructions.len() <= r.instructions.len()
            &&& r.loop_stack.len() == s.loop_stack.len()
            &&& r.try_stack.len() == s.try_stack.len()
        }),
    decreases e, 6int, 1int, 0int,
{
    broadcast use {ext_emit, ext_get_prop, ext_get_name_prop, extension_is_extendable};

    lemma_extends_self(s);
    let first = s;
    let r = rgen_expr_into(s, e, dst);
    reveal(expr_rrule);
    assert(r == expr_rrule(s, e, dst));
    match e {
        Expression::Index { left, index } => {
            match *index {
                Expression::String(prop) => {
                    match *left {
                        Expression::Identifier(name) => {},
                        Expression::This => {},
                        _ => extends_expr(s, *left),
                    }
                },
                _ => {
                    extends_expr(s, *left);
                    let s = rgen_expr(s, *left);
                    extends_expr(s, *index);
                },
            }
        },
        _ => {},
    }
    assert(builds_on(first, r));
}

proof fn extends_optional_index_expr(s: RView, e: Expression, dst: u16)
    requires
        is_extendable(s),
        s.err is None,
        e is OptionalIndex,
    ensures
        ({
            let r = rgen_expr_into(s, e, dst);
            &&& builds_on(s, r)
            &&& s.instructions.len() <= r.instructions.len()
            &&& r.loop_stack.len() == s.loop_stack.len()
            &&& r.try_stack.len() == s.try_stack.len()
        }),
    decreases e, 6int, 1int, 0int,
{
    broadcast use {
        ext_emit,
        ext_get_prop,
        ext_patch,
        ext_test_nullish,
        extension_is_extendable,
        ext_here,
    };

    lemma_extends_self(s);
    let first = s;
    let r = rgen_expr_into(s, e, dst);
    reveal(expr_rrule);
    assert(r == expr_rrule(s, e, dst));
    match e {
        Expression::OptionalIndex { left, index } => {
            let object = s.next_temp;
            extends_expr(s, *left);
            let (s, _) = test_nullish(rgen_expr(s, *left), object, dst);
            match *index {
                Expression::String(prop) => {},
                _ => extends_expr(s, *index),
            }
        },
        _ => {},
    }
    assert(builds_on(first, r));
}

proof fn extends_optional_call_expr(s: RView, e: Expression, dst: u16)
    requires
        is_extendable(s),
        s.err is None,
        e is OptionalCall,
    ensures
        ({
            let r = rgen_expr_into(s, e, dst);
            &&& builds_on(s, r)
            &&& s.instructions.len() <= r.instructions.len()
            &&& r.loop_stack.len() == s.loop_stack.len()
            &&& r.try_stack.len() == s.try_stack.len()
        }),
    decreases e, 6int, 1int, 0int,
{
    broadcast use {
        ext_emit,
        ext_take_temp,
        ext_set_temps,
        ext_finish_call,
        ext_call_dst,
        ext_patch,
        ext_test_nullish,
        extension_is_extendable,
        ext_here,
    };

    lemma_extends_self(s);
    let first = s;
    let r = rgen_expr_into(s, e, dst);
    reveal(expr_rrule);
    assert(r == expr_rrule(s, e, dst));
    match e {
        Expression::OptionalCall { function, arguments } => {
            let (s, _) = s.call_dst(dst);
            let f = s.next_temp;
            extends_expr(s, *function);
            let (s, _) = test_nullish(rgen_expr(s, *function), f, dst);
            if has_spread(arguments@) {
                let list = s.next_temp;
                let s = s.take_temp().emit(ROp::Array, seq![list, 0, 0]);
                extends_appends(s, arguments, list, 0);
            } else {
                extends_packed(s, arguments, nth_reg(f, 1), 0);
            }
        },
        _ => {},
    }
    assert(builds_on(first, r));
}

proof fn extends_new_expr(s: RView, e: Expression, dst: u16)
    requires
        is_extendable(s),
        s.err is None,
        e is New,
    ensures
        ({
            let r = rgen_expr_into(s, e, dst);
            &&& builds_on(s, r)
            &&& s.instructions.len() <= r.instructions.len()
            &&& r.loop_stack.len() == s.loop_stack.len()
            &&& r.try_stack.len() == s.try_stack.len()
        }),
    decreases e, 6int, 1int, 0int,
{
    broadcast use {ext_emit, ext_take_temp, ext_finish_call, ext_call_dst, extension_is_extendable};

    lemma_extends_self(s);
    let first = s;
    let r = rgen_expr_into(s, e, dst);
    reveal(expr_rrule);
    assert(r == expr_rrule(s, e, dst));
    match e {
        Expression::New { callee, arguments } => {
            let (s, _) = s.call_dst(dst);
            let base = s.next_temp;
            if has_spread(arguments@) {
                extends_expr(s, *callee);
                let s = rgen_expr(s, *callee);
                let list = s.next_temp;
                let s = s.take_temp().emit(ROp::Array, seq![list, 0, 0]);
                extends_appends(s, arguments, list, 0);
            } else {
                extends_expr(s, *callee);
                extends_packed(rgen_expr(s, *callee), arguments, nth_reg(base, 1), 0);
            }
        },
        _ => {},
    }
    assert(builds_on(first, r));
}

proof fn extends_function_expr(s: RView, e: Expression, dst: u16)
    requires
        is_extendable(s),
        s.err is None,
        e is Function,
    ensures
        ({
            let r = rgen_expr_into(s, e, dst);
            &&& builds_on(s, r)
            &&& s.instructions.len() <= r.instructions.len()
            &&& r.loop_stack.len() == s.loop_stack.len()
            &&& r.try_stack.len() == s.try_stack.len()
        }),
    decreases e, 6int, 1int, 0int,
{
    broadcast use {ext_load_function, extension_is_extendable};

    lemma_extends_self(s);
    let first = s;
    let r = rgen_expr_into(s, e, dst);
    reveal(expr_rrule);
    assert(r == expr_rrule(s, e, dst));
    match e {
        Expression::Function { parameters, body, is_async, is_generator, is_arrow } => {
            extends_function(s, parameters, body, !is_arrow, is_async, is_generator);
        },
        _ => {},
    }
    assert(builds_on(first, r));
}

proof fn extends_class_expr(s: RView, e: Expression, dst: u16)
    requires
        is_extendable(s),
        s.err is None,
        e is Class,
    ensures
        ({
            let r = rgen_expr_into(s, e, dst);
            &&& builds_on(s, r)
            &&& s.instructions.len() <= r.instructions.len()
            &&& r.loop_stack.len() == s.loop_stack.len()
            &&& r.try_stack.len() == s.try_stack.len()
        }),
    decreases e, 6int, 1int, 0int,
{
    broadcast use {ext_load_object, ext_init_class, extension_is_extendable};

    lemma_extends_self(s);
    let first = s;
    let r = rgen_expr_into(s, e, dst);
    reveal(expr_rrule);
    assert(r == expr_rrule(s, e, dst));
    match e {
        Expression::Class { name, extends, members } => extends_class(s, name, extends, members),
        _ => {},
    }
    assert(builds_on(first, r));
}

pub(crate) proof fn extends_expr_into(s: RView, e: Expression, dst: u16)
    requires
        is_extendable(s),
    ensures
        ({
            let r = rgen_expr_into(s, e, dst);
            &&& builds_on(s, r)
            &&& forall|a: RView| #[trigger] builds_on(a, s) ==> builds_on(a, r)
            &&& s.instructions.len() <= r.instructions.len()
            &&& r.loop_stack.len() == s.loop_stack.len()
            &&& r.try_stack.len() == s.try_stack.len()
        }),
    decreases e, 7int, 0int, 0int,
{
    broadcast use {
        ext_fail,
        ext_emit,
        ext_load_object,
        ext_load_int,
        ext_load_float,
        ext_load_string,
        ext_load_name,
        extension_is_extendable,
    };

    lemma_extends_self(s);
    let r = rgen_expr_into(s, e, dst);
    if s.err is None {
        reveal(expr_rrule);
        assert(r == expr_rrule(s, e, dst));
        match e {
            Expression::Array(_) => extends_array_expr(s, e, dst),
            Expression::Prefix { .. } => extends_prefix_expr(s, e, dst),
            Expression::Typeof { .. } => extends_typeof_expr(s, e, dst),
            Expression::Void { .. } => extends_void_expr(s, e, dst),
            Expression::Await { .. } => extends_await_expr(s, e, dst),
            Expression::Yield { .. } => extends_yield_expr(s, e, dst),
            Expression::Infix { .. } => extends_infix_expr(s, e, dst),
            Expression::Index { .. } => extends_index_expr(s, e, dst),
            Expression::OptionalIndex { .. } => extends_optional_index_expr(s, e, dst),
            Expression::OptionalCall { .. } => extends_optional_call_expr(s, e, dst),
            Expression::New { .. } => extends_new_expr(s, e, dst),
            Expression::Function { .. } => extends_function_expr(s, e, dst),
            Expression::Class { .. } => extends_class_expr(s, e, dst),
            Expression::Hash(entries) => extends_hash(s, entries, dst),
            Expression::Delete { value } => extends_delete(s, *value, dst),
            Expression::Sequence(items) => extends_sequence(s, items, dst, 0),
            Expression::Assign { .. } => extends_assign(s, e, dst),
            Expression::Update { .. } => extends_update(s, e, dst),
            Expression::If { .. } => extends_if(s, e, dst),
            Expression::Call { .. } => extends_call(s, e, dst),
            _ => {},
        }
    }
    assert(builds_on(s, r));
    lemma_extends_all(s, r);
}

pub(crate) proof fn extends_call(s: RView, e: Expression, dst: u16)
    requires
        is_extendable(s),
    ensures
        ({
            let r = rgen_call(s, e, dst);
            &&& builds_on(s, r)
            &&& forall|a: RView| #[trigger] builds_on(a, s) ==> builds_on(a, r)
            &&& s.instructions.len() <= r.instructions.len()
            &&& r.loop_stack.len() == s.loop_stack.len()
            &&& r.try_stack.len() == s.try_stack.len()
        }),
    decreases e, 4int, 0int, 1int,
{
    broadcast use {ext_emit, ext_take_temp, ext_finish_call, ext_call_dst, extension_is_extendable};

    lemma_extends_self(s);
    let first = s;
    let r = rgen_call(s, e, dst);
    reveal(call_rrule);
    assert(r == call_rrule(s, e, dst));
    match e {
        Expression::Call { function, arguments } => {
            let (s, call) = s.call_dst(dst);
            let base = s.next_temp;
            if has_spread(arguments@) {
                extends_expr(s, *function);
                let s = rgen_expr(s, *function);
                let list = s.next_temp;
                let s = s.take_temp().emit(ROp::Array, seq![list, 0, 0]);
                extends_appends(s, arguments, list, 0);
            } else {
                match rcalled_global(s, *function) {
                    Some(g) => extends_packed(s.take_temp(), arguments, nth_reg(base, 1), 0),
                    None => extends_member_call(s, e, dst, call, base),
                }
            }
        },
        _ => {},
    }
    assert(builds_on(first, r));
    lemma_extends_all(first, r);
}

pub(crate) proof fn extends_member_call(s: RView, e: Expression, dst: u16, call: u16, base: u16)
    requires
        is_extendable(s),
    ensures
        ({
            let r = rgen_member_call(s, e, dst, call, base);
            &&& builds_on(s, r)
            &&& forall|a: RView| #[trigger] builds_on(a, s) ==> builds_on(a, r)
            &&& s.instructions.len() <= r.instructions.len()
            &&& r.loop_stack.len() == s.loop_stack.len()
            &&& r.try_stack.len() == s.try_stack.len()
        }),
    decreases e, 3int, 0int, 1int,
{
    broadcast use {
        ext_emit,
        ext_finish_call,
        ext_patch,
        ext_call_method,
        ext_test_nullish,
        extension_is_extendable,
        ext_here,
    };

    lemma_extends_self(s);
    let first = s;
    let r = rgen_member_call(s, e, dst, call, base);
    reveal(member_call_rrule);
    assert(r == member_call_rrule(s, e, dst, call, base));
    match e {
        Expression::Call { function, arguments } => {
            let first = nth_reg(base, 1);
            match called_method(*function) {
                Some((object, prop, optional)) => {
                    extends_expr(s, object);
                    let s = rgen_expr(s, object);
                    if optional {
                        let (s, _) = test_nullish(s, base, dst);
                        extends_packed(s, arguments, first, 0);
                    } else {
                        extends_packed(s, arguments, first, 0);
                    }
                },
                None => {
                    extends_expr(s, *function);
                    extends_packed(rgen_expr(s, *function), arguments, first, 0);
                },
            }
        },
        _ => {},
    }
    assert(builds_on(first, r));
    lemma_extends_all(first, r);
}

pub(crate) proof fn extends_if(s: RView, e: Expression, dst: u16)
    requires
        is_extendable(s),
    ensures
        ({
            let r = rgen_if(s, e, dst);
            &&& builds_on(s, r)
            &&& forall|a: RView| #[trigger] builds_on(a, s) ==> builds_on(a, r)
            &&& s.instructions.len() <= r.instructions.len()
            &&& r.loop_stack.len() == s.loop_stack.len()
            &&& r.try_stack.len() == s.try_stack.len()
        }),
    decreases e, 4int, 0int, 1int,
{
    broadcast use {ext_emit, ext_copy_reg, ext_patch, extension_is_extendable, ext_here};

    lemma_extends_self(s);
    let first = s;
    let r = rgen_if(s, e, dst);
    reveal(if_rrule);
    assert(r == if_rrule(s, e, dst));
    match e {
        Expression::If { condition, consequence, alternative } => {
            extends_condition(s, *condition);
            let (s, jump) = rgen_condition(s, *condition);
            extends_block(s, consequence, consequence@.len() as int, plain_walk());
            let (s, last) = rgen_block(
                s,
                consequence,
                consequence@.len() as int,
                plain_walk(),
            );
            let s = copy_last(s, dst, last);
            let s = s.emit(ROp::Jump, seq![PLACEHOLDER]);
            let s = s.patch(jump, s.here());
            match alternative {
                Some(alt) => extends_block(s, alt, alt@.len() as int, plain_walk()),
                _ => {},
            }
        },
        _ => {},
    }
    assert(builds_on(first, r));
    lemma_extends_all(first, r);
}

pub(crate) proof fn extends_logical(s: RView, e: Expression, dst: u16)
    requires
        is_extendable(s),
    ensures
        ({
            let r = rgen_logical(s, e, dst);
            &&& builds_on(s, r)
            &&& forall|a: RView| #[trigger] builds_on(a, s) ==> builds_on(a, r)
            &&& s.instructions.len() <= r.instructions.len()
            &&& r.loop_stack.len() == s.loop_stack.len()
            &&& r.try_stack.len() == s.try_stack.len()
        }),
    decreases e, 4int, 0int, 1int,
{
    broadcast use {
        ext_emit,
        ext_take_temp,
        ext_copy_reg,
        ext_patch,
        extension_is_extendable,
        ext_here,
    };

    lemma_extends_self(s);
    let first = s;
    let r = rgen_logical(s, e, dst);
    reveal(logical_rrule);
    assert(r == logical_rrule(s, e, dst));
    match e {
        Expression::Infix { left, operator, right } => {
            let l = s.next_temp;
            extends_expr(s, *left);
            let s = rgen_expr(s, *left).copy_reg(dst, l);
            let (s, _) = if operator@ == "||"@ {
                (s.emit(ROp::JumpIfTruthy, seq![dst, PLACEHOLDER]), s.here())
            } else if operator@ == "&&"@ {
                (s.emit(ROp::JumpIfNot, seq![dst, PLACEHOLDER]), s.here())
            } else {
                let nullish = s.next_temp;
                let s = s.take_temp().emit(ROp::IsNullish, seq![nullish, dst]);
                (s.emit(ROp::JumpIfNot, seq![nullish, PLACEHOLDER]), s.here())
            };
            extends_expr_into(s, *right, dst);
        },
        _ => {},
    }
    assert(builds_on(first, r));
    lemma_extends_all(first, r);
}

pub(crate) proof fn extends_delete(s: RView, value: Expression, dst: u16)
    requires
        is_extendable(s),
    ensures
        ({
            let r = rgen_delete(s, value, dst);
            &&& builds_on(s, r)
            &&& forall|a: RView| #[trigger] builds_on(a, s) ==> builds_on(a, r)
            &&& s.instructions.len() <= r.instructions.len()
            &&& r.loop_stack.len() == s.loop_stack.len()
            &&& r.try_stack.len() == s.try_stack.len()
        }),
    decreases value, 9int, 0int, 1int,
{
    broadcast use {ext_emit, ext_write_back_name, extension_is_extendable};

    lemma_extends_self(s);
    let first = s;
    let r = rgen_delete(s, value, dst);
    reveal(delete_rrule);
    assert(r == delete_rrule(s, value, dst));
    match value {
        Expression::Index { left, index } => {
            extends_expr(s, *left);
            let s = rgen_expr(s, *left);
            extends_expr(s, *index);
        },
        Expression::Identifier(_) => {},
        _ => extends_expr(s, value),
    }
    assert(builds_on(first, r));
    lemma_extends_all(first, r);
}

pub(crate) proof fn extends_hash_functions(
    s: RView,
    entries: Vec<HashEntry>,
    i: int,
    done: HashFunctions,
)
    requires
        is_extendable(s),
    ensures
        ({
            let r = rgen_hash_functions(s, entries, i, done);
            &&& builds_on(s, r.0)
            &&& forall|a: RView| #[trigger] builds_on(a, s) ==> builds_on(a, r.0)
            &&& s.instructions.len() <= r.0.instructions.len()
            &&& r.0.loop_stack.len() == s.loop_stack.len()
            &&& r.0.try_stack.len() == s.try_stack.len()
        }),
    decreases entries, 1int, entries@.len() - i, 1int,
{
    broadcast use {ext_fail, ext_add_constant, ext_add_accessor, extension_is_extendable};

    lemma_extends_self(s);
    let first = s;
    let r = rgen_hash_functions(s, entries, i, done);
    reveal(hash_functions_rrule);
    assert(r == hash_functions_rrule(s, entries, i, done));
    if 0 <= i < entries@.len() {
        match entries@[i] {
            HashEntry::Method { parameters, body, is_async, is_generator, .. } => {
                extends_function(s, parameters, body, true, is_async, is_generator);
                let (s, f) = rgen_function(s, parameters, body, true, is_async, is_generator);
                let (s, idx) = s.add_constant(ObjectView::Function(f));
                extends_hash_functions(
                    s,
                    entries,
                    i + 1,
                    HashFunctions { methods: done.methods.push(idx), ..done },
                );
            },
            HashEntry::Getter { key, body } => {
                extends_body(s, Seq::empty(), None, body, true, false, false);
                let (s, f) = rgen_body(s, Seq::empty(), None, body, true, false, false);
                let (s, accessor) = add_accessor(s, f, key, 0);
                extends_hash_functions(s, entries, i + 1, with_accessor(done, accessor));
            },
            HashEntry::Setter { key, parameter, body } => {
                let p = setter_parameters(parameter);
                if p.err is None {
                    extends_body(s, p.names, p.rest, body, true, false, false);
                }
                let (s, f) = if p.err is Some {
                    (s.fail(p.err->0), blank_function())
                } else {
                    rgen_body(s, p.names, p.rest, body, true, false, false)
                };
                let (s, accessor) = add_accessor(s, f, key, 1);
                extends_hash_functions(s, entries, i + 1, with_accessor(done, accessor));
            },
            _ => extends_hash_functions(s, entries, i + 1, done),
        }
    }
    assert(builds_on(first, r.0));
    lemma_extends_all(first, r.0);
}

pub(crate) proof fn extends_pairs(
    s: RView,
    entries: Vec<HashEntry>,
    base: u16,
    methods: Seq<u16>,
    i: int,
    k: int,
    m: int,
)
    requires
        is_extendable(s),
    ensures
        ({
            let r = rgen_pairs(s, entries, base, methods, i, k, m);
            &&& builds_on(s, r)
            &&& forall|a: RView| #[trigger] builds_on(a, s) ==> builds_on(a, r)
            &&& s.instructions.len() <= r.instructions.len()
            &&& r.loop_stack.len() == s.loop_stack.len()
            &&& r.try_stack.len() == s.try_stack.len()
        }),
    decreases entries, 1int, entries@.len() - i, 1int,
{
    broadcast use {
        ext_take_temp,
        ext_set_temps,
        ext_load_const,
        ext_load_string,
        extension_is_extendable,
    };

    lemma_extends_self(s);
    let first = s;
    let r = rgen_pairs(s, entries, base, methods, i, k, m);
    reveal(pairs_rrule);
    assert(r == pairs_rrule(s, entries, base, methods, i, k, m));
    if 0 <= i < entries@.len() {
        let key_reg = pair_reg(base, k as usize);
        let value_reg = nth_reg(key_reg, 1);
        let ready = s.set_temps(key_reg).take_temp().set_temps(value_reg).take_temp();
        match entries@[i] {
            HashEntry::KeyValue { key, value } => {
                extends_expr_into(ready, key, key_reg);
                extends_expr_into(rgen_expr_into(ready, key, key_reg), value, value_reg);
                extends_pairs(
                    rgen_expr_into(rgen_expr_into(ready, key, key_reg), value, value_reg),
                    entries,
                    base,
                    methods,
                    i + 1,
                    k + 1,
                    m,
                );
            },
            HashEntry::Method { key, .. } => {
                extends_expr_into(ready, key, key_reg);
                extends_pairs(
                    rgen_expr_into(ready, key, key_reg).load_const(value_reg, method_at(methods, m)),
                    entries,
                    base,
                    methods,
                    i + 1,
                    k + 1,
                    m + 1,
                );
            },
            HashEntry::Spread(value) => {
                extends_expr_into(ready.load_string(key_reg, "__fl_rest__"@), value, value_reg);
                extends_pairs(
                    rgen_expr_into(ready.load_string(key_reg, "__fl_rest__"@), value, value_reg),
                    entries,
                    base,
                    methods,
                    i + 1,
                    k + 1,
                    m,
                );
            },
            _ => extends_pairs(s, entries, base, methods, i + 1, k, m),
        }
    }
    assert(builds_on(first, r));
    lemma_extends_all(first, r);
}

pub(crate) proof fn extends_hash(s: RView, entries: Vec<HashEntry>, dst: u16)
    requires
        is_extendable(s),
    ensures
        ({
            let r = rgen_hash(s, entries, dst);
            &&& builds_on(s, r)
            &&& forall|a: RView| #[trigger] builds_on(a, s) ==> builds_on(a, r)
            &&& s.instructions.len() <= r.instructions.len()
            &&& r.loop_stack.len() == s.loop_stack.len()
            &&& r.try_stack.len() == s.try_stack.len()
        }),
    decreases entries, 2int, 0int, 1int,
{
    broadcast use {ext_emit, ext_define_accessors, extension_is_extendable};

    lemma_extends_self(s);
    let first = s;
    let r = rgen_hash(s, entries, dst);
    reveal(hash_rrule);
    assert(r == hash_rrule(s, entries, dst));
    let none = HashFunctions { methods: Seq::empty(), accessors: Seq::empty() };
    extends_hash_functions(s, entries, 0, none);
    let (s, functions) = rgen_hash_functions(s, entries, 0, none);
    let base = s.next_temp;
    extends_pairs(s, entries, base, functions.methods, 0, 0, 0);
    assert(builds_on(first, r));
    lemma_extends_all(first, r);
}

} // verus!
