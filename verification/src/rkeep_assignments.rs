//! What assignments and destructuring of the register compiler keep.
use vstd::prelude::*;

use crate::ast::{
    ArrayBindingItem, BindingPattern, BindingTarget, Expression, HashEntry, ObjectBindingItem,
};
use crate::codegen::{is_logical_assignment, PLACEHOLDER};
use crate::rcode::ROp;
use crate::rcodegen::{compound_rop, RView};
use crate::rkeep_expressions::{keeps_expr, keeps_expr_into};
use crate::rkeep::{
    accessors_stay, lemma_grows_all, rule_add_constant_to_local, rule_add_constant_to_property,
    rule_assign_rest, rule_get_element, rule_hold, rule_rfuse_add, rule_rfuse_property_add,
    rule_rfuse_property_sum, rule_rstep_name, rule_store_rest, rule_store_result,
    rule_store_to_name, rule_stored_property, rule_test_undefined, rule_write_back,
};
use crate::rrules::{
    array_items_rrule, assign_held_rrule, assign_rest, assign_rrule, default_rrule,
    destructure_rrule, element_reg, element_store_rrule, element_targets_rrule, entry_keys_rrule,
    fills_last, get_element, hold, index_assign_rrule, into_local_rrule, item_keys_rrule,
    logical_assign_rrule, logical_element_rrule, name_assign_rrule, nested_rrule,
    object_items_rrule, pattern_rrule, postfix_element_rrule, property_target_rrule,
    property_targets_rrule, rfuse_add, rfuse_property_add, rfuse_property_sum, rgen_array_items,
    rgen_assign, rgen_assign_held, rgen_default, rgen_destructure, rgen_element_store,
    rgen_element_targets, rgen_entry_keys, rgen_expr, rgen_index_assign, rgen_into_local,
    rgen_item_keys, rgen_logical_assign, rgen_logical_element, rgen_name_assign, rgen_nested,
    rgen_object_items, rgen_pattern, rgen_postfix_element, rgen_property_target,
    rgen_property_targets, rgen_right, rgen_right_into, rgen_step, rgen_target, rgen_update,
    right_into_rrule, right_rrule, step_rrule, store_rest, stored_element, stored_property,
    target_rrule, test_undefined, update_rrule,
};
use crate::rsound::{
    compound_is_plain, constant_stays, constants_stay, grows, growth_is_sound, is_sound,
    lemma_grows_self, local_is_counted, place_stays, placeholder_lands, step_add_string,
    step_after_cache_slot, step_copy_reg, step_emit, step_emit_plain, step_fail, step_get_prop,
    step_here, step_load_int, step_load_name, step_load_name_new, step_mirror, step_patch,
    step_store_global, step_store_name, step_store_target, step_take_temp,
};
use crate::rules::{kept_items, keyed_entries, may_repeat};

verus! {

pub(crate) proof fn keeps_pattern(s: RView, p: BindingPattern, source: u16)
    requires
        is_sound(s),
        source <= s.max_reg,
    ensures
        ({
            let r = rgen_pattern(s, p, source);
            &&& grows(s, r)
            &&& forall|a: RView| #[trigger] grows(a, s) ==> grows(a, r)
            &&& s.max_reg <= r.max_reg
        }),
    decreases p, 4int, 0int, 1int,
{
    broadcast use growth_is_sound;

    lemma_grows_self(s);
    let first = s;
    let r = rgen_pattern(s, p, source);
    reveal(pattern_rrule);
    assert(r == pattern_rrule(s, p, source));
    match p {
        BindingPattern::Array(items) => keeps_array_items(s, items, source, 0),
        BindingPattern::Object(items) => keeps_object_items(s, items, source, 0),
    }
    assert(grows(first, r));
    lemma_grows_all(first, r);
}

pub(crate) proof fn keeps_array_items(s: RView, items: Vec<ArrayBindingItem>, source: u16, i: int)
    requires
        is_sound(s),
        source <= s.max_reg,
    ensures
        ({
            let r = rgen_array_items(s, items, source, i);
            &&& grows(s, r)
            &&& forall|a: RView| #[trigger] grows(a, s) ==> grows(a, r)
            &&& s.max_reg <= r.max_reg
        }),
    decreases items, 1int, items@.len() - i, 1int,
{
    broadcast use {growth_is_sound, rule_get_element, rule_store_rest};

    lemma_grows_self(s);
    let first = s;
    let r = rgen_array_items(s, items, source, i);
    reveal(array_items_rrule);
    assert(r == array_items_rrule(s, items, source, i));
    if 0 <= i < items@.len() {
        match items@[i] {
            ArrayBindingItem::Binding { target, default_value } => {
                let value = element_reg(s, i);
                let s = get_element(s, source, i);
                match default_value {
                    Some(d) => keeps_default(s, d, value),
                    _ => {},
                }
                let s = match default_value {
                    Some(d) => rgen_default(s, d, value),
                    None => s,
                };
                keeps_target(s, target, value);
            },
            _ => {},
        }
        let s = match items@[i] {
            ArrayBindingItem::Hole => s,
            ArrayBindingItem::Binding { target, default_value } => {
                let value = element_reg(s, i);
                let s = get_element(s, source, i);
                let s = match default_value {
                    Some(d) => rgen_default(s, d, value),
                    None => s,
                };
                rgen_target(s, target, value)
            },
            ArrayBindingItem::Rest { name } => store_rest(s, source, i, name@),
        };
        keeps_array_items(s, items, source, i + 1);
    }
    assert(grows(first, r));
    lemma_grows_all(first, r);
}

pub(crate) proof fn keeps_object_items(s: RView, items: Vec<ObjectBindingItem>, source: u16, i: int)
    requires
        is_sound(s),
        source <= s.max_reg,
    ensures
        ({
            let r = rgen_object_items(s, items, source, i);
            &&& grows(s, r)
            &&& forall|a: RView| #[trigger] grows(a, s) ==> grows(a, r)
            &&& s.max_reg <= r.max_reg
        }),
    decreases items, 2int, items@.len() - i, 1int,
{
    broadcast use {growth_is_sound, step_emit, step_fail, step_take_temp, step_store_name};

    lemma_grows_self(s);
    let first = s;
    let r = rgen_object_items(s, items, source, i);
    reveal(object_items_rrule);
    assert(r == object_items_rrule(s, items, source, i));
    if 0 <= i < items@.len() {
        let item = items@[i];
        if item.is_rest {
            keeps_item_keys(s, items, 0);
        } else {
            let key = s.next_temp;
            keeps_expr(s, item.key);
            let s = rgen_expr(s, item.key);
            let value = s.next_temp;
            let s = s.take_temp().emit(ROp::Index, seq![value, source, key]);
            match item.default_value {
                Some(d) => keeps_default(s, d, value),
                _ => {},
            }
            let s = match item.default_value {
                Some(d) => rgen_default(s, d, value),
                None => s,
            };
            keeps_target(s, item.target, value);
        }
        let s = if item.is_rest {
            let base = s.next_temp;
            let s = rgen_item_keys(s, items, 0);
            let rest = s.next_temp;
            let count = kept_items(items@, items@.len() as int) as u16;
            let s = s.take_temp().emit(ROp::ObjectRest, seq![rest, source, base, count]);
            match item.target {
                BindingTarget::Identifier(name) => s.store_name(name@, rest),
                BindingTarget::Pattern(_) => s.fail("object rest target must be identifier"@),
            }
        } else {
            let key = s.next_temp;
            let s = rgen_expr(s, item.key);
            let value = s.next_temp;
            let s = s.take_temp().emit(ROp::Index, seq![value, source, key]);
            let s = match item.default_value {
                Some(d) => rgen_default(s, d, value),
                None => s,
            };
            rgen_target(s, item.target, value)
        };
        keeps_object_items(s, items, source, i + 1);
    }
    assert(grows(first, r));
    lemma_grows_all(first, r);
}

pub(crate) proof fn keeps_item_keys(s: RView, items: Vec<ObjectBindingItem>, i: int)
    requires
        is_sound(s),
    ensures
        ({
            let r = rgen_item_keys(s, items, i);
            &&& grows(s, r)
            &&& forall|a: RView| #[trigger] grows(a, s) ==> grows(a, r)
            &&& s.max_reg <= r.max_reg
        }),
    decreases items, 1int, items@.len() - i, 1int,
{
    broadcast use growth_is_sound;

    lemma_grows_self(s);
    let first = s;
    let r = rgen_item_keys(s, items, i);
    reveal(item_keys_rrule);
    assert(r == item_keys_rrule(s, items, i));
    if i < 0 || i >= items@.len() {
    } else if items@[i].is_rest {
        keeps_item_keys(s, items, i + 1);
    } else {
        keeps_expr(s, items@[i].key);
        keeps_item_keys(rgen_expr(s, items@[i].key), items, i + 1);
    }
    assert(grows(first, r));
    lemma_grows_all(first, r);
}

pub(crate) proof fn keeps_target(s: RView, t: BindingTarget, source: u16)
    requires
        is_sound(s),
        source <= s.max_reg,
    ensures
        ({
            let r = rgen_target(s, t, source);
            &&& grows(s, r)
            &&& forall|a: RView| #[trigger] grows(a, s) ==> grows(a, r)
            &&& s.max_reg <= r.max_reg
        }),
    decreases t, 4int, 0int, 1int,
{
    broadcast use {growth_is_sound, step_store_name};

    lemma_grows_self(s);
    let first = s;
    let r = rgen_target(s, t, source);
    reveal(target_rrule);
    assert(r == target_rrule(s, t, source));
    match t {
        BindingTarget::Pattern(p) => keeps_pattern(s, *p, source),
        _ => {},
    }
    assert(grows(first, r));
    lemma_grows_all(first, r);
}

pub(crate) proof fn keeps_default(s: RView, default: Expression, value: u16)
    requires
        is_sound(s),
        value <= s.max_reg,
    ensures
        ({
            let r = rgen_default(s, default, value);
            &&& grows(s, r)
            &&& forall|a: RView| #[trigger] grows(a, s) ==> grows(a, r)
            &&& s.max_reg <= r.max_reg
        }),
    decreases default, 9int, 0int, 1int,
{
    broadcast use {growth_is_sound, step_patch, step_here, rule_test_undefined, place_stays};

    lemma_grows_self(s);
    let first = s;
    let r = rgen_default(s, default, value);
    reveal(default_rrule);
    assert(r == default_rrule(s, default, value));
    let (s, _) = test_undefined(s, value);
    keeps_expr_into(s, default, value);
    assert(grows(first, r));
    lemma_grows_all(first, r);
}

pub(crate) proof fn keeps_assign(s: RView, e: Expression, dst: u16)
    requires
        is_sound(s),
        dst <= s.max_reg,
    ensures
        ({
            let r = rgen_assign(s, e, dst);
            &&& grows(s, r)
            &&& forall|a: RView| #[trigger] grows(a, s) ==> grows(a, r)
            &&& s.max_reg <= r.max_reg
        }),
    decreases e, 5int, 1int, 1int,
{
    broadcast use {growth_is_sound, step_fail, step_copy_reg};

    lemma_grows_self(s);
    let first = s;
    let r = rgen_assign(s, e, dst);
    reveal(assign_rrule);
    assert(r == assign_rrule(s, e, dst));
    match e {
        Expression::Assign { left, operator, right } => {
            match *left {
                Expression::Identifier(name) => keeps_name_assign(s, name@, operator@, *right, dst),
                Expression::Index { .. } => keeps_index_assign(s, e, operator@, Seq::empty(), dst),
                Expression::Array(_) => {
                    if operator@ == "="@ {
                        let source = s.next_temp;
                        keeps_expr(s, *right);
                        keeps_destructure(rgen_expr(s, *right), *left, source);
                    }
                },
                Expression::Hash(_) => {
                    if operator@ == "="@ {
                        let source = s.next_temp;
                        keeps_expr(s, *right);
                        keeps_destructure(rgen_expr(s, *right), *left, source);
                    }
                },
                _ => {},
            }
        },
        _ => {},
    }
    assert(grows(first, r));
    lemma_grows_all(first, r);
}

pub(crate) proof fn keeps_into_local(s: RView, e: Expression, dst: u16)
    requires
        is_sound(s),
        dst <= s.max_reg,
    ensures
        ({
            let r = rgen_into_local(s, e, dst);
            &&& grows(s, r)
            &&& forall|a: RView| #[trigger] grows(a, s) ==> grows(a, r)
            &&& s.max_reg <= r.max_reg
        }),
    decreases e, 9int, 1int, 1int,
{
    broadcast use {growth_is_sound, step_copy_reg};

    lemma_grows_self(s);
    let first = s;
    let r = rgen_into_local(s, e, dst);
    reveal(into_local_rrule);
    assert(r == into_local_rrule(s, e, dst));
    if fills_last(e) {
        keeps_expr_into(s, e, dst);
    } else {
        keeps_expr(s, e);
    }
    assert(grows(first, r));
    lemma_grows_all(first, r);
}

pub(crate) proof fn keeps_name_assign(
    s: RView,
    name: Seq<char>,
    operator: Seq<char>,
    right: Expression,
    dst: u16,
)
    requires
        is_sound(s),
        dst <= s.max_reg,
    ensures
        ({
            let r = rgen_name_assign(s, name, operator, right, dst);
            &&& grows(s, r)
            &&& forall|a: RView| #[trigger] grows(a, s) ==> grows(a, r)
            &&& s.max_reg <= r.max_reg
        }),
    decreases right, 10int, 0int, 1int,
{
    broadcast use {
        growth_is_sound,
        step_emit,
        step_fail,
        step_take_temp,
        step_copy_reg,
        step_mirror,
        step_store_global,
        step_load_name,
        rule_store_result,
        rule_add_constant_to_local,
        rule_rfuse_add,
        local_is_counted,
        constant_stays,
        step_emit_plain,
        compound_is_plain,
    };

    lemma_grows_self(s);
    let first = s;
    let r = rgen_name_assign(s, name, operator, right, dst);
    reveal(name_assign_rrule);
    assert(r == name_assign_rrule(s, name, operator, right, dst));
    if s.const_bindings.contains(name) {
    } else if is_logical_assignment(operator) {
        keeps_logical_assign(s, name, operator, right, dst);
    } else {
        match rfuse_add(s, name, operator, right) {
            (s, None) => {
                if operator == "="@ {
                    if s.locals.has(name) {
                        let r = s.locals.map[name];
                        keeps_into_local(s, right, r);
                    } else {
                        keeps_expr(s, right);
                    }
                } else {
                    match compound_rop(operator) {
                        Some(op) => {
                            let current = s.next_temp;
                            let s = s.take_temp().load_name(name, current);
                            keeps_expr(s, right);
                        },
                        _ => {},
                    }
                }
            },
            _ => {},
        }
    }
    assert(grows(first, r));
    lemma_grows_all(first, r);
}

pub(crate) proof fn keeps_logical_assign(
    s: RView,
    name: Seq<char>,
    operator: Seq<char>,
    right: Expression,
    dst: u16,
)
    requires
        is_sound(s),
        dst <= s.max_reg,
    ensures
        ({
            let r = rgen_logical_assign(s, name, operator, right, dst);
            &&& grows(s, r)
            &&& forall|a: RView| #[trigger] grows(a, s) ==> grows(a, r)
            &&& s.max_reg <= r.max_reg
        }),
    decreases right, 9int, 0int, 1int,
{
    broadcast use {
        growth_is_sound,
        step_emit,
        step_patch,
        step_here,
        step_take_temp,
        step_copy_reg,
        step_load_name,
        rule_store_to_name,
        place_stays,
        placeholder_lands,
    };

    lemma_grows_self(s);
    let first = s;
    let r = rgen_logical_assign(s, name, operator, right, dst);
    reveal(logical_assign_rrule);
    assert(r == logical_assign_rrule(s, name, operator, right, dst));
    let current = s.next_temp;
    let s = s.take_temp().load_name(name, current);
    if operator == "&&="@ || operator == "||="@ {
        let s = s.copy_reg(dst, current);
        let s = if operator == "&&="@ {
            s.emit(ROp::JumpIfNot, seq![dst, PLACEHOLDER])
        } else {
            s.emit(ROp::JumpIfTruthy, seq![dst, PLACEHOLDER])
        };
        keeps_expr_into(s, right, dst);
    } else {
        let nullish = s.next_temp;
        let s = s.take_temp().emit(ROp::IsNullish, seq![nullish, current]);
        let s = s.emit(ROp::JumpIfNot, seq![nullish, PLACEHOLDER]);
        keeps_expr_into(s, right, dst);
    }
    assert(grows(first, r));
    lemma_grows_all(first, r);
}

pub(crate) proof fn keeps_right_into(s: RView, e: Expression, held: Seq<char>, dst: u16)
    requires
        is_sound(s),
        dst <= s.max_reg,
    ensures
        ({
            let r = rgen_right_into(s, e, held, dst);
            &&& grows(s, r)
            &&& forall|a: RView| #[trigger] grows(a, s) ==> grows(a, r)
            &&& s.max_reg <= r.max_reg
        }),
    decreases e, 2int, 0int, 1int,
{
    broadcast use {growth_is_sound, step_load_int, step_load_name};

    lemma_grows_self(s);
    let first = s;
    let r = rgen_right_into(s, e, held, dst);
    reveal(right_into_rrule);
    assert(r == right_into_rrule(s, e, held, dst));
    match e {
        Expression::Assign { right, .. } => keeps_expr_into(s, *right, dst),
        _ => {},
    }
    assert(grows(first, r));
    lemma_grows_all(first, r);
}

pub(crate) proof fn keeps_right(s: RView, e: Expression, held: Seq<char>)
    requires
        is_sound(s),
    ensures
        ({
            let r = rgen_right(s, e, held);
            &&& grows(s, r)
            &&& forall|a: RView| #[trigger] grows(a, s) ==> grows(a, r)
            &&& s.max_reg <= r.max_reg
            &&& s.next_temp <= r.max_reg
        }),
    decreases e, 3int, 0int, 1int,
{
    broadcast use {growth_is_sound, step_take_temp};

    lemma_grows_self(s);
    let first = s;
    let r = rgen_right(s, e, held);
    reveal(right_rrule);
    assert(r == right_rrule(s, e, held));
    keeps_right_into(s.take_temp(), e, held, s.next_temp);
    assert(grows(first, r));
    lemma_grows_all(first, r);
}

pub(crate) proof fn keeps_index_assign(s: RView, e: Expression, operator: Seq<char>, held: Seq<char>, dst: u16)
    requires
        is_sound(s),
        dst <= s.max_reg,
    ensures
        ({
            let r = rgen_index_assign(s, e, operator, held, dst);
            &&& grows(s, r)
            &&& forall|a: RView| #[trigger] grows(a, s) ==> grows(a, r)
            &&& s.max_reg <= r.max_reg
        }),
    decreases e, 5int, 0int, 1int,
{
    broadcast use {
        growth_is_sound,
        step_emit,
        step_after_cache_slot,
        step_add_string,
        step_get_prop,
        rule_rfuse_property_add,
        rule_add_constant_to_property,
        rule_rfuse_property_sum,
        rule_stored_property,
        constant_stays,
    };

    lemma_grows_self(s);
    let first = s;
    let r = rgen_index_assign(s, e, operator, held, dst);
    reveal(index_assign_rrule);
    assert(r == index_assign_rrule(s, e, operator, held, dst));
    match rfuse_property_add(s, e, operator) {
        (s, None) => {
            match rfuse_property_sum(s, e, operator) {
                (s, None) => {
                    match stored_property(s, e, operator) {
                        Some((slot, prop)) => {
                            let (s, _) = s.add_string(prop);
                            keeps_right_into(s.after_cache_slot(), e, held, dst);
                        },
                        None => {
                            if is_logical_assignment(operator) {
                                keeps_logical_element(s, e, operator, held, dst);
                            } else {
                                keeps_element_store(s, e, operator, held, dst);
                            }
                        },
                    }
                },
                _ => {},
            }
        },
        _ => {},
    }
    assert(grows(first, r));
    lemma_grows_all(first, r);
}

pub(crate) proof fn keeps_logical_element(
    s: RView,
    e: Expression,
    operator: Seq<char>,
    held: Seq<char>,
    dst: u16,
)
    requires
        is_sound(s),
        dst <= s.max_reg,
    ensures
        ({
            let r = rgen_logical_element(s, e, operator, held, dst);
            &&& grows(s, r)
            &&& forall|a: RView| #[trigger] grows(a, s) ==> grows(a, r)
            &&& s.max_reg <= r.max_reg
        }),
    decreases e, 4int, 0int, 1int,
{
    broadcast use {
        growth_is_sound,
        step_emit,
        step_patch,
        step_here,
        step_take_temp,
        rule_write_back,
        place_stays,
        placeholder_lands,
    };

    lemma_grows_self(s);
    let first = s;
    let r = rgen_logical_element(s, e, operator, held, dst);
    reveal(logical_element_rrule);
    assert(r == logical_element_rrule(s, e, operator, held, dst));
    match stored_element(e) {
        Some((object, index)) => {
            let o = s.next_temp;
            keeps_expr(s, object);
            let s = rgen_expr(s, object);
            let k = s.next_temp;
            keeps_expr(s, index);
            let s = rgen_expr(s, index);
            let old = s.next_temp;
            let s = s.take_temp().emit(ROp::Index, seq![old, o, k]);
            let (s, _) = if operator == "||="@ {
                (s.emit(ROp::JumpIfTruthy, seq![old, PLACEHOLDER]), s.here())
            } else if operator == "&&="@ {
                (s.emit(ROp::JumpIfNot, seq![old, PLACEHOLDER]), s.here())
            } else {
                let nullish = s.next_temp;
                let s = s.take_temp().emit(ROp::IsNullish, seq![nullish, old]);
                (s.emit(ROp::JumpIfNot, seq![nullish, PLACEHOLDER]), s.here())
            };
            keeps_right(s, e, held);
        },
        _ => {},
    }
    assert(grows(first, r));
    lemma_grows_all(first, r);
}

pub(crate) proof fn keeps_element_store(
    s: RView,
    e: Expression,
    operator: Seq<char>,
    held: Seq<char>,
    dst: u16,
)
    requires
        is_sound(s),
        dst <= s.max_reg,
    ensures
        ({
            let r = rgen_element_store(s, e, operator, held, dst);
            &&& grows(s, r)
            &&& forall|a: RView| #[trigger] grows(a, s) ==> grows(a, r)
            &&& s.max_reg <= r.max_reg
        }),
    decreases e, 4int, 0int, 1int,
{
    broadcast use {
        growth_is_sound,
        step_emit,
        step_fail,
        step_take_temp,
        step_copy_reg,
        rule_write_back,
        step_emit_plain,
        compound_is_plain,
    };

    lemma_grows_self(s);
    let first = s;
    let r = rgen_element_store(s, e, operator, held, dst);
    reveal(element_store_rrule);
    assert(r == element_store_rrule(s, e, operator, held, dst));
    match stored_element(e) {
        Some((object, index)) => {
            if !(operator != "="@ && compound_rop(operator) is None) {
                let o = s.next_temp;
                keeps_expr(s, object);
                let s = rgen_expr(s, object);
                let k = s.next_temp;
                keeps_expr(s, index);
                let s = rgen_expr(s, index);
                match compound_rop(operator) {
                    Some(op) => {
                        let old = s.next_temp;
                        let s = s.take_temp().emit(ROp::Index, seq![old, o, k]);
                        keeps_right(s, e, held);
                    },
                    None => keeps_right(s, e, held),
                }
            }
        },
        _ => {},
    }
    assert(grows(first, r));
    lemma_grows_all(first, r);
}

pub(crate) proof fn keeps_update(s: RView, e: Expression, dst: u16)
    requires
        is_sound(s),
        dst <= s.max_reg,
    ensures
        ({
            let r = rgen_update(s, e, dst);
            &&& grows(s, r)
            &&& forall|a: RView| #[trigger] grows(a, s) ==> grows(a, r)
            &&& s.max_reg <= r.max_reg
        }),
    decreases e, 5int, 2int, 1int,
{
    broadcast use {growth_is_sound, step_fail, step_take_temp, step_copy_reg};

    lemma_grows_self(s);
    let first = s;
    let r = rgen_update(s, e, dst);
    reveal(update_rrule);
    assert(r == update_rrule(s, e, dst));
    match e {
        Expression::Update { target, operator, prefix } => {
            let assign = if operator@ == "++"@ {
                "+="@
            } else {
                "-="@
            };
            if operator@ != "++"@ && operator@ != "--"@ {
            } else if prefix {
                keeps_step(s, e, assign, dst);
            } else if may_repeat(*target) {
                let old = s.next_temp;
                keeps_expr(s, *target);
                let s = rgen_expr(s, *target).copy_reg(dst, old);
                keeps_step(s.take_temp(), e, assign, s.next_temp);
            } else {
                keeps_postfix_element(s, *target, assign, dst);
            }
        },
        _ => {},
    }
    assert(grows(first, r));
    lemma_grows_all(first, r);
}

pub(crate) proof fn keeps_postfix_element(s: RView, target: Expression, assign: Seq<char>, dst: u16)
    requires
        is_sound(s),
        dst <= s.max_reg,
    ensures
        ({
            let r = rgen_postfix_element(s, target, assign, dst);
            &&& grows(s, r)
            &&& forall|a: RView| #[trigger] grows(a, s) ==> grows(a, r)
            &&& s.max_reg <= r.max_reg
        }),
    decreases target, 9int, 0int, 1int,
{
    broadcast use {
        growth_is_sound,
        step_emit,
        step_take_temp,
        step_copy_reg,
        step_load_int,
        rule_write_back,
    };

    lemma_grows_self(s);
    let first = s;
    let r = rgen_postfix_element(s, target, assign, dst);
    reveal(postfix_element_rrule);
    assert(r == postfix_element_rrule(s, target, assign, dst));
    match target {
        Expression::Index { left, index } => {
            keeps_expr(s, *left);
            let s = rgen_expr(s, *left);
            keeps_expr(s, *index);
        },
        _ => {},
    }
    assert(grows(first, r));
    lemma_grows_all(first, r);
}

pub(crate) proof fn keeps_step(s: RView, e: Expression, assign: Seq<char>, dst: u16)
    requires
        is_sound(s),
        dst <= s.max_reg,
    ensures
        ({
            let r = rgen_step(s, e, assign, dst);
            &&& grows(s, r)
            &&& forall|a: RView| #[trigger] grows(a, s) ==> grows(a, r)
            &&& s.max_reg <= r.max_reg
        }),
    decreases e, 5int, 1int, 1int,
{
    broadcast use {growth_is_sound, step_fail, rule_rstep_name};

    lemma_grows_self(s);
    let first = s;
    let r = rgen_step(s, e, assign, dst);
    reveal(step_rrule);
    assert(r == step_rrule(s, e, assign, dst));
    match e {
        Expression::Update { target, .. } => {
            match *target {
                Expression::Index { .. } => keeps_index_assign(s, e, assign, Seq::empty(), dst),
                _ => {},
            }
        },
        _ => {},
    }
    assert(grows(first, r));
    lemma_grows_all(first, r);
}

pub(crate) proof fn keeps_destructure(s: RView, target: Expression, source: u16)
    requires
        is_sound(s),
        source <= s.max_reg,
    ensures
        ({
            let r = rgen_destructure(s, target, source);
            &&& grows(s, r)
            &&& forall|a: RView| #[trigger] grows(a, s) ==> grows(a, r)
            &&& s.max_reg <= r.max_reg
        }),
    decreases target, 10int, 0int, 1int,
{
    broadcast use growth_is_sound;

    lemma_grows_self(s);
    let first = s;
    let r = rgen_destructure(s, target, source);
    reveal(destructure_rrule);
    assert(r == destructure_rrule(s, target, source));
    match target {
        Expression::Array(items) => keeps_element_targets(s, items, source, 0),
        Expression::Hash(entries) => keeps_property_targets(s, entries, source, 0),
        _ => {},
    }
    assert(grows(first, r));
    lemma_grows_all(first, r);
}

pub(crate) proof fn keeps_nested(s: RView, target: Expression, held: Seq<char>, dst: u16)
    requires
        is_sound(s),
        dst <= s.max_reg,
    ensures
        ({
            let r = rgen_nested(s, target, held, dst);
            &&& grows(s, r)
            &&& forall|a: RView| #[trigger] grows(a, s) ==> grows(a, r)
            &&& s.max_reg <= r.max_reg
        }),
    decreases target, 11int, 0int, 1int,
{
    broadcast use {growth_is_sound, step_copy_reg, step_load_name_new};

    lemma_grows_self(s);
    let first = s;
    let r = rgen_nested(s, target, held, dst);
    reveal(nested_rrule);
    assert(r == nested_rrule(s, target, held, dst));
    let source = s.next_temp;
    keeps_destructure(s.load_name_new(held), target, source);
    assert(grows(first, r));
    lemma_grows_all(first, r);
}

pub(crate) proof fn keeps_element_targets(s: RView, items: Vec<Expression>, source: u16, i: int)
    requires
        is_sound(s),
        source <= s.max_reg,
    ensures
        ({
            let r = rgen_element_targets(s, items, source, i);
            &&& grows(s, r)
            &&& forall|a: RView| #[trigger] grows(a, s) ==> grows(a, r)
            &&& s.max_reg <= r.max_reg
        }),
    decreases items, 1int, items@.len() - i, 1int,
{
    broadcast use {
        growth_is_sound,
        step_fail,
        step_store_target,
        rule_get_element,
        rule_assign_rest,
        rule_hold,
    };

    lemma_grows_self(s);
    let first = s;
    let r = rgen_element_targets(s, items, source, i);
    reveal(element_targets_rrule);
    assert(r == element_targets_rrule(s, items, source, i));
    if 0 <= i < items@.len() {
        let value = element_reg(s, i);
        match items@[i] {
            Expression::Assign { left, operator, right } => {
                if operator@ == "="@ {
                    keeps_default(get_element(s, source, i), *right, value);
                    let s = rgen_default(get_element(s, source, i), *right, value);
                    match *left {
                        Expression::Array(_) | Expression::Hash(_) => {
                            keeps_destructure(s, *left, value);
                        },
                        _ => {},
                    }
                }
            },
            Expression::Array(_) | Expression::Hash(_) => {
                let (s, name) = hold(get_element(s, source, i), "arr_nested"@, value);
                keeps_nested(s, items@[i], name, value);
            },
            _ => {},
        }
        let s = match items@[i] {
            Expression::Spread { value: rest } => if i + 1 != items@.len() {
                s.fail("array rest element in assignment must be last"@)
            } else {
                match *rest {
                    Expression::Identifier(name) => assign_rest(s, source, i, name@),
                    _ => s.fail("array rest assignment requires identifier target"@),
                }
            },
            Expression::Identifier(name) => get_element(s, source, i).store_target(name@, value),
            Expression::Assign { left, operator, right } => if operator@ == "="@ {
                let s = rgen_default(get_element(s, source, i), *right, value);
                match *left {
                    Expression::Identifier(name) => s.store_target(name@, value),
                    Expression::Array(_) | Expression::Hash(_) => rgen_destructure(
                        s,
                        *left,
                        value,
                    ),
                    _ => s.fail(
                        "array destructuring supports identifier or nested pattern targets"@,
                    ),
                }
            } else {
                s.fail("array destructuring assignment supports identifier targets"@)
            },
            Expression::Array(_) | Expression::Hash(_) => {
                let (s, name) = hold(get_element(s, source, i), "arr_nested"@, value);
                rgen_nested(s, items@[i], name, value)
            },
            _ => s.fail("array destructuring assignment supports identifier targets"@),
        };
        keeps_element_targets(s, items, source, i + 1);
    }
    assert(grows(first, r));
    lemma_grows_all(first, r);
}

pub(crate) proof fn keeps_entry_keys(s: RView, entries: Vec<HashEntry>, i: int)
    requires
        is_sound(s),
    ensures
        ({
            let r = rgen_entry_keys(s, entries, i);
            &&& grows(s, r)
            &&& forall|a: RView| #[trigger] grows(a, s) ==> grows(a, r)
            &&& s.max_reg <= r.max_reg
        }),
    decreases entries, 1int, entries@.len() - i, 1int,
{
    broadcast use growth_is_sound;

    lemma_grows_self(s);
    let first = s;
    let r = rgen_entry_keys(s, entries, i);
    reveal(entry_keys_rrule);
    assert(r == entry_keys_rrule(s, entries, i));
    if 0 <= i < entries@.len() {
        match entries@[i] {
            HashEntry::KeyValue { key, .. } => keeps_expr(s, key),
            HashEntry::Method { key, .. } => keeps_expr(s, key),
            HashEntry::Getter { key, .. } => keeps_expr(s, key),
            HashEntry::Setter { key, .. } => keeps_expr(s, key),
            _ => {},
        }
        let s = match entries@[i] {
            HashEntry::Spread(_) => s,
            HashEntry::KeyValue { key, .. } => rgen_expr(s, key),
            HashEntry::Method { key, .. } => rgen_expr(s, key),
            HashEntry::Getter { key, .. } => rgen_expr(s, key),
            HashEntry::Setter { key, .. } => rgen_expr(s, key),
        };
        keeps_entry_keys(s, entries, i + 1);
    }
    assert(grows(first, r));
    lemma_grows_all(first, r);
}

pub(crate) proof fn keeps_property_targets(s: RView, entries: Vec<HashEntry>, source: u16, i: int)
    requires
        is_sound(s),
        source <= s.max_reg,
    ensures
        ({
            let r = rgen_property_targets(s, entries, source, i);
            &&& grows(s, r)
            &&& forall|a: RView| #[trigger] grows(a, s) ==> grows(a, r)
            &&& s.max_reg <= r.max_reg
        }),
    decreases entries, 2int, entries@.len() - i, 1int,
{
    broadcast use {
        growth_is_sound,
        step_emit,
        step_fail,
        step_take_temp,
        step_store_target,
        constant_stays,
        constants_stay,
        accessors_stay,
    };

    lemma_grows_self(s);
    let first = s;
    let r = rgen_property_targets(s, entries, source, i);
    reveal(property_targets_rrule);
    assert(r == property_targets_rrule(s, entries, source, i));
    if 0 <= i < entries@.len() {
        match entries@[i] {
            HashEntry::Spread(target) => {
                match target {
                    Expression::Identifier(name) => keeps_entry_keys(s, entries, 0),
                    _ => {},
                }
            },
            HashEntry::KeyValue { key, value: target } => {
                let k = s.next_temp;
                keeps_expr(s, key);
                let s = rgen_expr(s, key);
                let value = s.next_temp;
                let s = s.take_temp().emit(ROp::Index, seq![value, source, k]);
                keeps_property_target(s, target, value);
            },
            _ => {},
        }
        let s = match entries@[i] {
            HashEntry::Spread(target) => match target {
                Expression::Identifier(name) => {
                    let base = s.next_temp;
                    let s = rgen_entry_keys(s, entries, 0);
                    let rest = s.next_temp;
                    let count = keyed_entries(entries@, entries@.len() as int) as u16;
                    s.take_temp().emit(
                        ROp::ObjectRest,
                        seq![rest, source, base, count],
                    ).store_target(name@, rest)
                },
                _ => s.fail("object rest destructuring requires identifier target"@),
            },
            HashEntry::KeyValue { key, value: target } => {
                let k = s.next_temp;
                let s = rgen_expr(s, key);
                let value = s.next_temp;
                let s = s.take_temp().emit(ROp::Index, seq![value, source, k]);
                rgen_property_target(s, target, value)
            },
            _ => s.fail("methods/getters/setters not valid in destructuring assignment"@),
        };
        keeps_property_targets(s, entries, source, i + 1);
    }
    assert(grows(first, r));
    lemma_grows_all(first, r);
}

pub(crate) proof fn keeps_property_target(s: RView, target: Expression, value: u16)
    requires
        is_sound(s),
        value <= s.max_reg,
    ensures
        ({
            let r = rgen_property_target(s, target, value);
            &&& grows(s, r)
            &&& forall|a: RView| #[trigger] grows(a, s) ==> grows(a, r)
            &&& s.max_reg <= r.max_reg
        }),
    decreases target, 12int, 0int, 1int,
{
    broadcast use {growth_is_sound, step_fail, step_take_temp, step_store_target, rule_hold};

    lemma_grows_self(s);
    let first = s;
    let r = rgen_property_target(s, target, value);
    reveal(property_target_rrule);
    assert(r == property_target_rrule(s, target, value));
    match target {
        Expression::Assign { left, operator, right } => {
            if operator@ == "="@ {
                keeps_default(s, *right, value);
                let s = rgen_default(s, *right, value);
                match *left {
                    Expression::Identifier(name) => {},
                    _ => {
                        let (s, name) = hold(s, "obj_nested"@, value);
                        keeps_assign_held(s.take_temp(), *left, name, s.next_temp);
                    },
                }
            }
        },
        Expression::Array(_) | Expression::Hash(_) => {
            let (s, name) = hold(s, "obj_nested"@, value);
            keeps_nested(s.take_temp(), target, name, s.next_temp);
        },
        _ => {},
    }
    assert(grows(first, r));
    lemma_grows_all(first, r);
}

pub(crate) proof fn keeps_assign_held(s: RView, target: Expression, held: Seq<char>, dst: u16)
    requires
        is_sound(s),
        dst <= s.max_reg,
    ensures
        ({
            let r = rgen_assign_held(s, target, held, dst);
            &&& grows(s, r)
            &&& forall|a: RView| #[trigger] grows(a, s) ==> grows(a, r)
            &&& s.max_reg <= r.max_reg
        }),
    decreases target, 12int, 0int, 1int,
{
    broadcast use {growth_is_sound, step_fail};

    lemma_grows_self(s);
    let first = s;
    let r = rgen_assign_held(s, target, held, dst);
    reveal(assign_held_rrule);
    assert(r == assign_held_rrule(s, target, held, dst));
    match target {
        Expression::Array(_) | Expression::Hash(_) => keeps_nested(s, target, held, dst),
        Expression::Index { .. } => keeps_index_assign(s, target, "="@, held, dst),
        _ => {},
    }
    assert(grows(first, r));
    lemma_grows_all(first, r);
}

} // verus!
