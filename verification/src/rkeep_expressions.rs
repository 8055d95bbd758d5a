//! What expressions of the register compiler keep.
use vstd::prelude::*;

use crate::ast::{Expression, HashEntry};
use crate::builtins::global_member;
use crate::codegen::{has_spread, PLACEHOLDER};
use crate::object::ObjectView;
use crate::rcode::ROp;
use crate::rcodegen::{nth_reg, RView};
use crate::rkeep_assignments::{keeps_assign, keeps_update};
use crate::rkeep_functions::{keeps_body, keeps_class, keeps_function, lemma_parameters};
use crate::rkeep_statements::{keeps_block, keeps_condition};
use crate::rkeep::{
    accessors_stay, are_accessors, lemma_grows_all, lemma_methods, methods_from, rule_add_accessor,
    rule_call_method, rule_define_accessors, rule_init_class, rule_rgen_prefix, rule_test_nullish,
    rule_write_back_name,
};
use crate::rrules::{
    add_accessor, appends_rrule, call_method, call_rrule, called_method, copy_last, delete_rrule,
    expr_rrule, hash_functions_rrule, hash_rrule, if_rrule, logical_rrule, member_call_rrule,
    method_at, packed_rrule, pair_reg, pairs_rrule, plain_walk, rcalled_global, rgen_appends,
    rgen_block, rgen_body, rgen_call, rgen_condition, rgen_delete, rgen_expr, rgen_expr_into,
    rgen_function, rgen_hash, rgen_hash_functions, rgen_if, rgen_logical, rgen_member_call,
    rgen_packed, rgen_pairs, rgen_sequence, sequence_rrule, test_nullish, with_accessor,
    HashFunctions,
};
use crate::rsound::{
    are_constants, constant_stays, constants_stay, grows, growth_is_sound, infix_is_plain,
    is_range, is_sound, lemma_blank_is_laid_out, lemma_grows_on, lemma_grows_self,
    lemma_grows_sound, local_is_counted, place_lands, place_stays, placeholder_lands,
    step_add_constant, step_call_dst, step_copy_reg, step_emit, step_emit_plain, step_fail,
    step_finish_call, step_get_name_prop, step_get_prop, step_here, step_load_const,
    step_load_float, step_load_function, step_load_int, step_load_name, step_load_object,
    step_load_string, step_patch, step_set_temps, step_take_temp,
};
use crate::rules::{blank_function, parameters, plain_entries, setter_parameters};

verus! {

/// The arguments of a call stand in the registers after `base`.
proof fn keeps_arguments(s: RView, arguments: Vec<Expression>, base: u16)
    requires
        is_sound(s),
        base <= s.max_reg,
    ensures
        ({
            let r = rgen_packed(s, arguments, nth_reg(base, 1), 0);
            &&& grows(s, r)
            &&& forall|a: RView| #[trigger] grows(a, s) ==> grows(a, r)
            &&& s.max_reg <= r.max_reg
            &&& is_range(r, base, (arguments@.len() as u16) + 1)
            &&& r.max_reg < 0xffff ==> base + (arguments@.len() as u16) <= r.max_reg
        }),
    decreases arguments, 1int, arguments@.len() + 1, 0int,
{
    keeps_packed(s, arguments, nth_reg(base, 1), 0);
}

/// A call of a method, once the object is in `base`.
spec fn method_call(
    s: RView,
    arguments: Vec<Expression>,
    prop: Seq<char>,
    dst: u16,
    call: u16,
    base: u16,
) -> RView {
    let count = arguments@.len() as u16;
    call_method(rgen_packed(s, arguments, nth_reg(base, 1), 0), call, base, count, prop).finish_call(
        call,
        dst,
    )
}

proof fn keeps_method_call(
    b: RView,
    s: RView,
    arguments: Vec<Expression>,
    prop: Seq<char>,
    dst: u16,
    call: u16,
    base: u16,
)
    requires
        grows(b, s),
        dst <= s.max_reg,
        call <= s.max_reg,
        base <= s.max_reg,
    ensures
        grows(b, method_call(s, arguments, prop, dst, call, base)),
        s.max_reg <= method_call(s, arguments, prop, dst, call, base).max_reg,
    decreases arguments, 1int, arguments@.len() + 1, 1int,
{
    broadcast use {growth_is_sound, step_finish_call, rule_call_method};

    keeps_arguments(s, arguments, base);
}

proof fn keeps_optional_method_call(
    s: RView,
    arguments: Vec<Expression>,
    prop: Seq<char>,
    dst: u16,
    call: u16,
    base: u16,
)
    requires
        is_sound(s),
        dst <= s.max_reg,
        call <= s.max_reg,
        base <= s.max_reg,
    ensures
        ({
            let (t, skip) = test_nullish(s, base, dst);
            let u = method_call(t, arguments, prop, dst, call, base);
            &&& grows(s, u.patch(skip, u.here()))
            &&& s.max_reg <= u.patch(skip, u.here()).max_reg
        }),
    decreases arguments, 1int, arguments@.len() + 1, 2int,
{
    lemma_grows_self(s);
    rule_test_nullish(s, s, base, dst);
    let (t, skip) = test_nullish(s, base, dst);
    keeps_method_call(s, t, arguments, prop, dst, call, base);
    keeps_method_call(t, t, arguments, prop, dst, call, base);
    let u = method_call(t, arguments, prop, dst, call, base);
    step_here(s, u);
    place_stays(t, u, skip);
    step_patch(s, u, skip, u.here());
}

pub(crate) proof fn keeps_expr(s: RView, e: Expression)
    requires
        is_sound(s),
    ensures
        ({
            let r = rgen_expr(s, e);
            &&& grows(s, r)
            &&& forall|a: RView| #[trigger] grows(a, s) ==> grows(a, r)
            &&& s.max_reg <= r.max_reg
            &&& s.next_temp <= r.max_reg
        }),
    decreases e, 8int, 0int, 0int,
{
    broadcast use {growth_is_sound, step_take_temp};

    lemma_grows_self(s);
    let first = s;
    let r = rgen_expr(s, e);
    keeps_expr_into(s.take_temp(), e, s.next_temp);
    assert(grows(first, r));
    lemma_grows_all(first, r);
}

pub(crate) proof fn keeps_packed(s: RView, items: Vec<Expression>, base: u16, i: int)
    requires
        is_sound(s),
        0 <= i <= items@.len(),
        is_range(s, base, i),
    ensures
        ({
            let r = rgen_packed(s, items, base, i);
            &&& grows(s, r)
            &&& forall|a: RView| #[trigger] grows(a, s) ==> grows(a, r)
            &&& s.max_reg <= r.max_reg
            &&& is_range(r, base, items@.len() as int)
        }),
    decreases items, 1int, items@.len() - i, 1int,
{
    broadcast use {growth_is_sound, step_take_temp, step_set_temps};

    lemma_grows_self(s);
    let first = s;
    let r = rgen_packed(s, items, base, i);
    reveal(packed_rrule);
    assert(r == packed_rrule(s, items, base, i));
    if 0 <= i < items@.len() {
        let r = nth_reg(base, i as usize);
        keeps_expr_into(s.set_temps(r).take_temp(), items@[i], r);
        keeps_packed(rgen_expr_into(s.set_temps(r).take_temp(), items@[i], r), items, base, i + 1);
    }
    assert(grows(first, r));
    lemma_grows_all(first, r);
}

pub(crate) proof fn keeps_appends(s: RView, items: Vec<Expression>, list: u16, i: int)
    requires
        is_sound(s),
        list <= s.max_reg,
    ensures
        ({
            let r = rgen_appends(s, items, list, i);
            &&& grows(s, r)
            &&& forall|a: RView| #[trigger] grows(a, s) ==> grows(a, r)
            &&& s.max_reg <= r.max_reg
        }),
    decreases items, 1int, items@.len() - i, 1int,
{
    broadcast use {growth_is_sound, step_emit};

    lemma_grows_self(s);
    let first = s;
    let r = rgen_appends(s, items, list, i);
    reveal(appends_rrule);
    assert(r == appends_rrule(s, items, list, i));
    if 0 <= i < items@.len() {
        let v = s.next_temp;
        match items@[i] {
            Expression::Spread { value } => keeps_expr(s, *value),
            _ => keeps_expr(s, items@[i]),
        }
        let s = match items@[i] {
            Expression::Spread { value } => rgen_expr(s, *value).emit(
                ROp::AppendSpread,
                seq![list, v],
            ),
            _ => rgen_expr(s, items@[i]).emit(ROp::AppendElement, seq![list, v]),
        };
        keeps_appends(s, items, list, i + 1);
    }
    assert(grows(first, r));
    lemma_grows_all(first, r);
}

pub(crate) proof fn keeps_sequence(s: RView, items: Vec<Expression>, dst: u16, i: int)
    requires
        is_sound(s),
        dst <= s.max_reg,
    ensures
        ({
            let r = rgen_sequence(s, items, dst, i);
            &&& grows(s, r)
            &&& forall|a: RView| #[trigger] grows(a, s) ==> grows(a, r)
            &&& s.max_reg <= r.max_reg
        }),
    decreases items, 1int, items@.len() - i, 1int,
{
    broadcast use growth_is_sound;

    lemma_grows_self(s);
    let first = s;
    let r = rgen_sequence(s, items, dst, i);
    reveal(sequence_rrule);
    assert(r == sequence_rrule(s, items, dst, i));
    if 0 <= i < items@.len() {
        keeps_expr_into(s, items@[i], dst);
        keeps_expr(s, items@[i]);
        keeps_sequence(
            if i + 1 == items@.len() {
                rgen_expr_into(s, items@[i], dst)
            } else {
                rgen_expr(s, items@[i])
            },
            items,
            dst,
            i + 1,
        );
    }
    assert(grows(first, r));
    lemma_grows_all(first, r);
}

proof fn keeps_array_expr(s: RView, e: Expression, dst: u16)
    requires
        is_sound(s),
        s.err is None,
        e is Array,
        dst <= s.max_reg,
    ensures
        grows(s, rgen_expr_into(s, e, dst)),
        s.max_reg <= rgen_expr_into(s, e, dst).max_reg,
    decreases e, 6int, 1int, 0int,
{
    broadcast use {growth_is_sound, step_emit, place_lands};

    lemma_grows_self(s);
    let first = s;
    let r = rgen_expr_into(s, e, dst);
    reveal(expr_rrule);
    assert(r == expr_rrule(s, e, dst));
    match e {
        Expression::Array(items) => {
            if has_spread(items@) {
                keeps_appends(s.emit(ROp::Array, seq![dst, 0, 0]), items, dst, 0);
            } else {
                let base = s.next_temp;
                keeps_packed(s, items, base, 0);
            }
        },
        _ => {},
    }
    assert(grows(first, r));
}

proof fn keeps_prefix_expr(s: RView, e: Expression, dst: u16)
    requires
        is_sound(s),
        s.err is None,
        e is Prefix,
        dst <= s.max_reg,
    ensures
        grows(s, rgen_expr_into(s, e, dst)),
        s.max_reg <= rgen_expr_into(s, e, dst).max_reg,
    decreases e, 6int, 1int, 0int,
{
    broadcast use {growth_is_sound, step_set_temps, rule_rgen_prefix};

    lemma_grows_self(s);
    let first = s;
    let r = rgen_expr_into(s, e, dst);
    reveal(expr_rrule);
    assert(r == expr_rrule(s, e, dst));
    match e {
        Expression::Prefix { operator, right } => keeps_expr(s, *right),
        _ => {},
    }
    assert(grows(first, r));
}

proof fn keeps_typeof_expr(s: RView, e: Expression, dst: u16)
    requires
        is_sound(s),
        s.err is None,
        e is Typeof,
        dst <= s.max_reg,
    ensures
        grows(s, rgen_expr_into(s, e, dst)),
        s.max_reg <= rgen_expr_into(s, e, dst).max_reg,
    decreases e, 6int, 1int, 0int,
{
    broadcast use {growth_is_sound, step_emit, step_take_temp, step_set_temps, local_is_counted};

    lemma_grows_self(s);
    let first = s;
    let r = rgen_expr_into(s, e, dst);
    reveal(expr_rrule);
    assert(r == expr_rrule(s, e, dst));
    match e {
        Expression::Typeof { value } => {
            let known = match *value {
                Expression::Identifier(name) => s.locals.has(name@) || s.globals.has(name@)
                    || global_member(name@) is Some || s.is_function_scope,
                _ => true,
            };
            if known {
                keeps_expr(s, *value);
            }
        },
        _ => {},
    }
    assert(grows(first, r));
}

proof fn keeps_void_expr(s: RView, e: Expression, dst: u16)
    requires
        is_sound(s),
        s.err is None,
        e is Void,
        dst <= s.max_reg,
    ensures
        grows(s, rgen_expr_into(s, e, dst)),
        s.max_reg <= rgen_expr_into(s, e, dst).max_reg,
    decreases e, 6int, 1int, 0int,
{
    broadcast use {growth_is_sound, step_emit, step_set_temps};

    lemma_grows_self(s);
    let first = s;
    let r = rgen_expr_into(s, e, dst);
    reveal(expr_rrule);
    assert(r == expr_rrule(s, e, dst));
    match e {
        Expression::Void { value } => keeps_expr(s, *value),
        _ => {},
    }
    assert(grows(first, r));
}

proof fn keeps_await_expr(s: RView, e: Expression, dst: u16)
    requires
        is_sound(s),
        s.err is None,
        e is Await,
        dst <= s.max_reg,
    ensures
        grows(s, rgen_expr_into(s, e, dst)),
        s.max_reg <= rgen_expr_into(s, e, dst).max_reg,
    decreases e, 6int, 1int, 0int,
{
    broadcast use {growth_is_sound, step_emit};

    lemma_grows_self(s);
    let first = s;
    let r = rgen_expr_into(s, e, dst);
    reveal(expr_rrule);
    assert(r == expr_rrule(s, e, dst));
    match e {
        Expression::Await { value } => keeps_expr(s, *value),
        _ => {},
    }
    assert(grows(first, r));
}

proof fn keeps_yield_expr(s: RView, e: Expression, dst: u16)
    requires
        is_sound(s),
        s.err is None,
        e is Yield,
        dst <= s.max_reg,
    ensures
        grows(s, rgen_expr_into(s, e, dst)),
        s.max_reg <= rgen_expr_into(s, e, dst).max_reg,
    decreases e, 6int, 1int, 0int,
{
    broadcast use {growth_is_sound, step_emit};

    lemma_grows_self(s);
    let first = s;
    let r = rgen_expr_into(s, e, dst);
    reveal(expr_rrule);
    assert(r == expr_rrule(s, e, dst));
    match e {
        Expression::Yield { value, .. } => keeps_expr(s, *value),
        _ => {},
    }
    assert(grows(first, r));
}

proof fn keeps_infix_expr(s: RView, e: Expression, dst: u16)
    requires
        is_sound(s),
        s.err is None,
        e is Infix,
        dst <= s.max_reg,
    ensures
        grows(s, rgen_expr_into(s, e, dst)),
        s.max_reg <= rgen_expr_into(s, e, dst).max_reg,
    decreases e, 6int, 1int, 0int,
{
    broadcast use {
        growth_is_sound,
        step_emit,
        step_fail,
        step_set_temps,
        step_emit_plain,
        infix_is_plain,
    };

    lemma_grows_self(s);
    let first = s;
    let r = rgen_expr_into(s, e, dst);
    reveal(expr_rrule);
    assert(r == expr_rrule(s, e, dst));
    match e {
        Expression::Infix { left, operator, right } => {
            if operator@ == ","@ {
                let saved = s.next_temp;
                keeps_expr(s, *left);
                keeps_expr_into(rgen_expr(s, *left).set_temps(saved), *right, dst);
            } else if operator@ == "&&"@ || operator@ == "||"@ || operator@ == "??"@ {
                keeps_logical(s, e, dst);
            } else {
                keeps_expr(s, *left);
                let s = rgen_expr(s, *left);
                keeps_expr(s, *right);
            }
        },
        _ => {},
    }
    assert(grows(first, r));
}

proof fn keeps_index_expr(s: RView, e: Expression, dst: u16)
    requires
        is_sound(s),
        s.err is None,
        e is Index,
        dst <= s.max_reg,
    ensures
        grows(s, rgen_expr_into(s, e, dst)),
        s.max_reg <= rgen_expr_into(s, e, dst).max_reg,
    decreases e, 6int, 1int, 0int,
{
    broadcast use {growth_is_sound, step_emit, step_get_prop, step_get_name_prop};

    lemma_grows_self(s);
    let first = s;
    let r = rgen_expr_into(s, e, dst);
    reveal(expr_rrule);
    assert(r == expr_rrule(s, e, dst));
    match e {
        Expression::Index { left, index } => {
            match *index {
                Expression::String(prop) => {
                    match *left {
                        Expression::Identifier(name) => {},
                        Expression::This => {},
                        _ => keeps_expr(s, *left),
                    }
                },
                _ => {
                    keeps_expr(s, *left);
                    let s = rgen_expr(s, *left);
                    keeps_expr(s, *index);
                },
            }
        },
        _ => {},
    }
    assert(grows(first, r));
}

proof fn keeps_optional_index_expr(s: RView, e: Expression, dst: u16)
    requires
        is_sound(s),
        s.err is None,
        e is OptionalIndex,
        dst <= s.max_reg,
    ensures
        grows(s, rgen_expr_into(s, e, dst)),
        s.max_reg <= rgen_expr_into(s, e, dst).max_reg,
    decreases e, 6int, 1int, 0int,
{
    broadcast use {
        growth_is_sound,
        step_emit,
        step_patch,
        step_here,
        step_get_prop,
        rule_test_nullish,
        place_stays,
    };

    lemma_grows_self(s);
    let first = s;
    let r = rgen_expr_into(s, e, dst);
    reveal(expr_rrule);
    assert(r == expr_rrule(s, e, dst));
    match e {
        Expression::OptionalIndex { left, index } => {
            let object = s.next_temp;
            keeps_expr(s, *left);
            let (s, _) = test_nullish(rgen_expr(s, *left), object, dst);
            match *index {
                Expression::String(prop) => {},
                _ => keeps_expr(s, *index),
            }
        },
        _ => {},
    }
    assert(grows(first, r));
}

proof fn keeps_optional_call_expr(s: RView, e: Expression, dst: u16)
    requires
        is_sound(s),
        s.err is None,
        e is OptionalCall,
        dst <= s.max_reg,
    ensures
        grows(s, rgen_expr_into(s, e, dst)),
        s.max_reg <= rgen_expr_into(s, e, dst).max_reg,
    decreases e, 6int, 1int, 0int,
{
    broadcast use {
        growth_is_sound,
        step_emit,
        step_patch,
        step_here,
        step_take_temp,
        step_set_temps,
        step_finish_call,
        step_call_dst,
        rule_test_nullish,
        place_stays,
        place_lands,
    };

    lemma_grows_self(s);
    let first = s;
    let r = rgen_expr_into(s, e, dst);
    reveal(expr_rrule);
    assert(r == expr_rrule(s, e, dst));
    match e {
        Expression::OptionalCall { function, arguments } => {
            let (s, _) = s.call_dst(dst);
            let f = s.next_temp;
            keeps_expr(s, *function);
            let (s, _) = test_nullish(rgen_expr(s, *function), f, dst);
            if has_spread(arguments@) {
                let list = s.next_temp;
                let s = s.take_temp().emit(ROp::Array, seq![list, 0, 0]);
                keeps_appends(s, arguments, list, 0);
            } else {
                keeps_arguments(s, arguments, f);
            }
        },
        _ => {},
    }
    assert(grows(first, r));
}

proof fn keeps_new_expr(s: RView, e: Expression, dst: u16)
    requires
        is_sound(s),
        s.err is None,
        e is New,
        dst <= s.max_reg,
    ensures
        grows(s, rgen_expr_into(s, e, dst)),
        s.max_reg <= rgen_expr_into(s, e, dst).max_reg,
    decreases e, 6int, 1int, 0int,
{
    broadcast use {
        growth_is_sound,
        step_emit,
        step_take_temp,
        step_finish_call,
        step_call_dst,
        place_lands,
    };

    lemma_grows_self(s);
    let first = s;
    let r = rgen_expr_into(s, e, dst);
    reveal(expr_rrule);
    assert(r == expr_rrule(s, e, dst));
    match e {
        Expression::New { callee, arguments } => {
            let (s, _) = s.call_dst(dst);
            let base = s.next_temp;
            if has_spread(arguments@) {
                keeps_expr(s, *callee);
                let s = rgen_expr(s, *callee);
                let list = s.next_temp;
                let s = s.take_temp().emit(ROp::Array, seq![list, 0, 0]);
                keeps_appends(s, arguments, list, 0);
            } else {
                keeps_expr(s, *callee);
                keeps_arguments(rgen_expr(s, *callee), arguments, base);
            }
        },
        _ => {},
    }
    assert(grows(first, r));
}

proof fn keeps_function_expr(s: RView, e: Expression, dst: u16)
    requires
        is_sound(s),
        s.err is None,
        e is Function,
        dst <= s.max_reg,
    ensures
        grows(s, rgen_expr_into(s, e, dst)),
        s.max_reg <= rgen_expr_into(s, e, dst).max_reg,
    decreases e, 6int, 1int, 0int,
{
    broadcast use {growth_is_sound, step_load_function};

    lemma_grows_self(s);
    let first = s;
    let r = rgen_expr_into(s, e, dst);
    reveal(expr_rrule);
    assert(r == expr_rrule(s, e, dst));
    match e {
        Expression::Function { parameters, body, is_async, is_generator, is_arrow } => {
            keeps_function(s, parameters, body, !is_arrow, is_async, is_generator);
        },
        _ => {},
    }
    assert(grows(first, r));
}

proof fn keeps_class_expr(s: RView, e: Expression, dst: u16)
    requires
        is_sound(s),
        s.err is None,
        e is Class,
        dst <= s.max_reg,
    ensures
        grows(s, rgen_expr_into(s, e, dst)),
        s.max_reg <= rgen_expr_into(s, e, dst).max_reg,
    decreases e, 6int, 1int, 0int,
{
    broadcast use {growth_is_sound, step_load_object, rule_init_class};

    lemma_grows_self(s);
    let first = s;
    let r = rgen_expr_into(s, e, dst);
    reveal(expr_rrule);
    assert(r == expr_rrule(s, e, dst));
    match e {
        Expression::Class { name, extends, members } => keeps_class(s, name, extends, members),
        _ => {},
    }
    assert(grows(first, r));
}

pub(crate) proof fn keeps_expr_into(s: RView, e: Expression, dst: u16)
    requires
        is_sound(s),
        dst <= s.max_reg,
    ensures
        ({
            let r = rgen_expr_into(s, e, dst);
            &&& grows(s, r)
            &&& forall|a: RView| #[trigger] grows(a, s) ==> grows(a, r)
            &&& s.max_reg <= r.max_reg
        }),
    decreases e, 7int, 0int, 0int,
{
    broadcast use {
        growth_is_sound,
        step_emit,
        step_fail,
        step_load_object,
        step_load_int,
        step_load_float,
        step_load_string,
        step_load_name,
    };

    lemma_grows_self(s);
    let r = rgen_expr_into(s, e, dst);
    if s.err is None {
        reveal(expr_rrule);
        assert(r == expr_rrule(s, e, dst));
        match e {
            Expression::Array(_) => keeps_array_expr(s, e, dst),
            Expression::Prefix { .. } => keeps_prefix_expr(s, e, dst),
            Expression::Typeof { .. } => keeps_typeof_expr(s, e, dst),
            Expression::Void { .. } => keeps_void_expr(s, e, dst),
            Expression::Await { .. } => keeps_await_expr(s, e, dst),
            Expression::Yield { .. } => keeps_yield_expr(s, e, dst),
            Expression::Infix { .. } => keeps_infix_expr(s, e, dst),
            Expression::Index { .. } => keeps_index_expr(s, e, dst),
            Expression::OptionalIndex { .. } => keeps_optional_index_expr(s, e, dst),
            Expression::OptionalCall { .. } => keeps_optional_call_expr(s, e, dst),
            Expression::New { .. } => keeps_new_expr(s, e, dst),
            Expression::Function { .. } => keeps_function_expr(s, e, dst),
            Expression::Class { .. } => keeps_class_expr(s, e, dst),
            Expression::Hash(entries) => keeps_hash(s, entries, dst),
            Expression::Delete { value } => keeps_delete(s, *value, dst),
            Expression::Sequence(items) => keeps_sequence(s, items, dst, 0),
            Expression::Assign { .. } => keeps_assign(s, e, dst),
            Expression::Update { .. } => keeps_update(s, e, dst),
            Expression::If { .. } => keeps_if(s, e, dst),
            Expression::Call { .. } => keeps_call(s, e, dst),
            _ => {},
        }
    }
    assert(grows(s, r));
    lemma_grows_all(s, r);
}

pub(crate) proof fn keeps_call(s: RView, e: Expression, dst: u16)
    requires
        is_sound(s),
        dst <= s.max_reg,
    ensures
        ({
            let r = rgen_call(s, e, dst);
            &&& grows(s, r)
            &&& forall|a: RView| #[trigger] grows(a, s) ==> grows(a, r)
            &&& s.max_reg <= r.max_reg
        }),
    decreases e, 4int, 0int, 1int,
{
    broadcast use {growth_is_sound, step_emit, step_take_temp, step_finish_call, step_call_dst};

    lemma_grows_self(s);
    let first = s;
    let r = rgen_call(s, e, dst);
    reveal(call_rrule);
    assert(r == call_rrule(s, e, dst));
    match e {
        Expression::Call { function, arguments } => {
            let (s, call) = s.call_dst(dst);
            let base = s.next_temp;
            if has_spread(arguments@) {
                keeps_expr(s, *function);
                let s = rgen_expr(s, *function);
                let list = s.next_temp;
                let s = s.take_temp().emit(ROp::Array, seq![list, 0, 0]);
                keeps_appends(s, arguments, list, 0);
            } else {
                match rcalled_global(s, *function) {
                    Some(g) => keeps_arguments(s.take_temp(), arguments, base),
                    None => keeps_member_call(s, e, dst, call, base),
                }
            }
        },
        _ => {},
    }
    assert(grows(first, r));
    lemma_grows_all(first, r);
}

#[verifier::spinoff_prover]
pub(crate) proof fn keeps_member_call(s: RView, e: Expression, dst: u16, call: u16, base: u16)
    requires
        is_sound(s),
        base == s.next_temp,
        dst <= s.max_reg,
        call <= s.max_reg,
    ensures
        ({
            let r = rgen_member_call(s, e, dst, call, base);
            &&& grows(s, r)
            &&& forall|a: RView| #[trigger] grows(a, s) ==> grows(a, r)
            &&& s.max_reg <= r.max_reg
        }),
    decreases e, 3int, 0int, 1int,
{
    lemma_grows_self(s);
    let r = rgen_member_call(s, e, dst, call, base);
    reveal(member_call_rrule);
    assert(r == member_call_rrule(s, e, dst, call, base));
    match e {
        Expression::Call { function, arguments } => {
            match called_method(*function) {
                Some((object, prop, optional)) => {
                    match *function {
                        Expression::Index { left, .. } => keeps_expr(s, *left),
                        Expression::OptionalIndex { left, .. } => keeps_expr(s, *left),
                        _ => {},
                    }
                    let t = rgen_expr(s, object);
                    lemma_grows_sound(s, t);
                    if optional {
                        keeps_optional_method_call(t, arguments, prop, dst, call, base);
                        lemma_grows_on(s, t, r);
                    } else {
                        keeps_method_call(s, t, arguments, prop, dst, call, base);
                    }
                },
                None => {
                    keeps_expr(s, *function);
                    let t = rgen_expr(s, *function);
                    lemma_grows_sound(s, t);
                    keeps_arguments(t, arguments, base);
                    let u = rgen_packed(t, arguments, nth_reg(base, 1), 0);
                    let operands = seq![call, base, arguments@.len() as u16];
                    step_emit(s, u, ROp::Call, operands);
                    step_finish_call(s, u.emit(ROp::Call, operands), call, dst);
                },
            }
        },
        _ => {},
    }
    lemma_grows_all(s, r);
}

pub(crate) proof fn keeps_if(s: RView, e: Expression, dst: u16)
    requires
        is_sound(s),
        dst <= s.max_reg,
    ensures
        ({
            let r = rgen_if(s, e, dst);
            &&& grows(s, r)
            &&& forall|a: RView| #[trigger] grows(a, s) ==> grows(a, r)
            &&& s.max_reg <= r.max_reg
        }),
    decreases e, 4int, 0int, 1int,
{
    broadcast use {
        growth_is_sound,
        step_emit,
        step_patch,
        step_here,
        step_copy_reg,
        place_stays,
        placeholder_lands,
    };

    lemma_grows_self(s);
    let first = s;
    let r = rgen_if(s, e, dst);
    reveal(if_rrule);
    assert(r == if_rrule(s, e, dst));
    match e {
        Expression::If { condition, consequence, alternative } => {
            keeps_condition(s, *condition);
            let (s, jump) = rgen_condition(s, *condition);
            keeps_block(s, consequence, consequence@.len() as int, plain_walk());
            let (s, last) = rgen_block(
                s,
                consequence,
                consequence@.len() as int,
                plain_walk(),
            );
            let s = copy_last(s, dst, last);
            let s = s.emit(ROp::Jump, seq![PLACEHOLDER]);
            let s = s.patch(jump, s.here());
            match alternative {
                Some(alt) => keeps_block(s, alt, alt@.len() as int, plain_walk()),
                _ => {},
            }
        },
        _ => {},
    }
    assert(grows(first, r));
    lemma_grows_all(first, r);
}

pub(crate) proof fn keeps_logical(s: RView, e: Expression, dst: u16)
    requires
        is_sound(s),
        dst <= s.max_reg,
    ensures
        ({
            let r = rgen_logical(s, e, dst);
            &&& grows(s, r)
            &&& forall|a: RView| #[trigger] grows(a, s) ==> grows(a, r)
            &&& s.max_reg <= r.max_reg
        }),
    decreases e, 4int, 0int, 1int,
{
    broadcast use {
        growth_is_sound,
        step_emit,
        step_patch,
        step_here,
        step_take_temp,
        step_copy_reg,
        place_stays,
        placeholder_lands,
    };

    lemma_grows_self(s);
    let first = s;
    let r = rgen_logical(s, e, dst);
    reveal(logical_rrule);
    assert(r == logical_rrule(s, e, dst));
    match e {
        Expression::Infix { left, operator, right } => {
            let l = s.next_temp;
            keeps_expr(s, *left);
            let s = rgen_expr(s, *left).copy_reg(dst, l);
            let (s, _) = if operator@ == "||"@ {
                (s.emit(ROp::JumpIfTruthy, seq![dst, PLACEHOLDER]), s.here())
            } else if operator@ == "&&"@ {
                (s.emit(ROp::JumpIfNot, seq![dst, PLACEHOLDER]), s.here())
            } else {
                let nullish = s.next_temp;
                let s = s.take_temp().emit(ROp::IsNullish, seq![nullish, dst]);
                (s.emit(ROp::JumpIfNot, seq![nullish, PLACEHOLDER]), s.here())
            };
            keeps_expr_into(s, *right, dst);
        },
        _ => {},
    }
    assert(grows(first, r));
    lemma_grows_all(first, r);
}

pub(crate) proof fn keeps_delete(s: RView, value: Expression, dst: u16)
    requires
        is_sound(s),
        dst <= s.max_reg,
    ensures
        ({
            let r = rgen_delete(s, value, dst);
            &&& grows(s, r)
            &&& forall|a: RView| #[trigger] grows(a, s) ==> grows(a, r)
            &&& s.max_reg <= r.max_reg
        }),
    decreases value, 9int, 0int, 1int,
{
    broadcast use {growth_is_sound, step_emit, rule_write_back_name};

    lemma_grows_self(s);
    let first = s;
    let r = rgen_delete(s, value, dst);
    reveal(delete_rrule);
    assert(r == delete_rrule(s, value, dst));
    match value {
        Expression::Index { left, index } => {
            keeps_expr(s, *left);
            let s = rgen_expr(s, *left);
            keeps_expr(s, *index);
        },
        Expression::Identifier(_) => {},
        _ => keeps_expr(s, value),
    }
    assert(grows(first, r));
    lemma_grows_all(first, r);
}

pub(crate) proof fn keeps_hash_functions(s: RView, entries: Vec<HashEntry>, i: int, done: HashFunctions)
    requires
        is_sound(s),
        are_constants(s, done.methods),
        are_accessors(s, done.accessors),
        0 <= i,
    ensures
        ({
            let r = rgen_hash_functions(s, entries, i, done);
            &&& grows(s, r.0)
            &&& forall|a: RView| #[trigger] grows(a, s) ==> grows(a, r.0)
            &&& s.max_reg <= r.0.max_reg
            &&& grows(r.0, r.0)
            &&& are_constants(r.0, r.1.methods)
            &&& are_accessors(r.0, r.1.accessors)
            &&& r.1.methods.len() == done.methods.len() + methods_from(entries@, i)
        }),
    decreases entries, 1int, entries@.len() - i, 1int,
{
    broadcast use {
        growth_is_sound,
        step_fail,
        step_add_constant,
        rule_add_accessor,
        constant_stays,
        constants_stay,
        accessors_stay,
    };

    lemma_grows_self(s);
    let first = s;
    let r = rgen_hash_functions(s, entries, i, done);
    reveal(hash_functions_rrule);
    assert(r == hash_functions_rrule(s, entries, i, done));
    lemma_blank_is_laid_out();
    if 0 <= i < entries@.len() {
        match entries@[i] {
            HashEntry::Method { parameters, body, is_async, is_generator, .. } => {
                keeps_function(s, parameters, body, true, is_async, is_generator);
                let (s, f) = rgen_function(s, parameters, body, true, is_async, is_generator);
                let (s, idx) = s.add_constant(ObjectView::Function(f));
                keeps_hash_functions(
                    s,
                    entries,
                    i + 1,
                    HashFunctions { methods: done.methods.push(idx), ..done },
                );
            },
            HashEntry::Getter { key, body } => {
                keeps_body(s, Seq::empty(), None, body, true, false, false);
                let (s, f) = rgen_body(s, Seq::empty(), None, body, true, false, false);
                let (s, accessor) = add_accessor(s, f, key, 0);
                keeps_hash_functions(s, entries, i + 1, with_accessor(done, accessor));
            },
            HashEntry::Setter { key, parameter, body } => {
                let p = setter_parameters(parameter);
                lemma_parameters(seq![parameter], 1);
                if p.err is None {
                    keeps_body(s, p.names, p.rest, body, true, false, false);
                }
                let (s, f) = if p.err is Some {
                    (s.fail(p.err->0), blank_function())
                } else {
                    rgen_body(s, p.names, p.rest, body, true, false, false)
                };
                let (s, accessor) = add_accessor(s, f, key, 1);
                keeps_hash_functions(s, entries, i + 1, with_accessor(done, accessor));
            },
            _ => keeps_hash_functions(s, entries, i + 1, done),
        }
    }
    assert(grows(first, r.0));
    lemma_grows_all(first, r.0);
    lemma_grows_sound(first, r.0);
}

pub(crate) proof fn keeps_pairs(
    s: RView,
    entries: Vec<HashEntry>,
    base: u16,
    methods: Seq<u16>,
    i: int,
    k: int,
    m: int,
)
    requires
        is_sound(s),
        are_constants(s, methods),
        0 <= i <= entries@.len(),
        0 <= m,
        m + methods_from(entries@, i) <= methods.len(),
        k == plain_entries(entries@, i),
        is_range(s, base, 2 * k),
    ensures
        ({
            let r = rgen_pairs(s, entries, base, methods, i, k, m);
            &&& grows(s, r)
            &&& forall|a: RView| #[trigger] grows(a, s) ==> grows(a, r)
            &&& s.max_reg <= r.max_reg
            &&& is_range(r, base, 2 * (plain_entries(entries@, entries@.len() as int) as int))
        }),
    decreases entries, 1int, entries@.len() - i, 1int,
{
    broadcast use {
        growth_is_sound,
        step_take_temp,
        step_set_temps,
        step_load_const,
        step_load_string,
        constant_stays,
        constants_stay,
        accessors_stay,
    };

    lemma_grows_self(s);
    let first = s;
    let r = rgen_pairs(s, entries, base, methods, i, k, m);
    reveal(pairs_rrule);
    assert(r == pairs_rrule(s, entries, base, methods, i, k, m));
    lemma_methods(entries@, i + 1);
    if 0 <= i < entries@.len() {
        let key_reg = pair_reg(base, k as usize);
        let value_reg = nth_reg(key_reg, 1);
        let ready = s.set_temps(key_reg).take_temp().set_temps(value_reg).take_temp();
        match entries@[i] {
            HashEntry::KeyValue { key, value } => {
                keeps_expr_into(ready, key, key_reg);
                keeps_expr_into(rgen_expr_into(ready, key, key_reg), value, value_reg);
                keeps_pairs(
                    rgen_expr_into(rgen_expr_into(ready, key, key_reg), value, value_reg),
                    entries,
                    base,
                    methods,
                    i + 1,
                    k + 1,
                    m,
                );
            },
            HashEntry::Method { key, .. } => {
                keeps_expr_into(ready, key, key_reg);
                keeps_pairs(
                    rgen_expr_into(ready, key, key_reg).load_const(value_reg, method_at(methods, m)),
                    entries,
                    base,
                    methods,
                    i + 1,
                    k + 1,
                    m + 1,
                );
            },
            HashEntry::Spread(value) => {
                keeps_expr_into(ready.load_string(key_reg, "__fl_rest__"@), value, value_reg);
                keeps_pairs(
                    rgen_expr_into(ready.load_string(key_reg, "__fl_rest__"@), value, value_reg),
                    entries,
                    base,
                    methods,
                    i + 1,
                    k + 1,
                    m,
                );
            },
            _ => keeps_pairs(s, entries, base, methods, i + 1, k, m),
        }
    }
    assert(grows(first, r));
    lemma_grows_all(first, r);
}

pub(crate) proof fn keeps_hash(s: RView, entries: Vec<HashEntry>, dst: u16)
    requires
        is_sound(s),
        dst <= s.max_reg,
    ensures
        ({
            let r = rgen_hash(s, entries, dst);
            &&& grows(s, r)
            &&& forall|a: RView| #[trigger] grows(a, s) ==> grows(a, r)
            &&& s.max_reg <= r.max_reg
        }),
    decreases entries, 2int, 0int, 1int,
{
    broadcast use {
        growth_is_sound,
        step_emit,
        rule_define_accessors,
        constant_stays,
        constants_stay,
        accessors_stay,
    };

    lemma_grows_self(s);
    let first = s;
    let r = rgen_hash(s, entries, dst);
    reveal(hash_rrule);
    assert(r == hash_rrule(s, entries, dst));
    let none = HashFunctions { methods: Seq::empty(), accessors: Seq::empty() };
    keeps_hash_functions(s, entries, 0, none);
    let (s, functions) = rgen_hash_functions(s, entries, 0, none);
    let base = s.next_temp;
    keeps_pairs(s, entries, base, functions.methods, 0, 0, 0);
    assert(grows(first, r));
    lemma_grows_all(first, r);
}

} // verus!
