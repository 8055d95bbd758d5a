//! What assignments and destructuring of the register compiler leave as it is.
use vstd::prelude::*;

use crate::ast::{
    ArrayBindingItem, BindingPattern, BindingTarget, Expression, HashEntry, ObjectBindingItem,
};
use crate::codegen::{is_logical_assignment, PLACEHOLDER};
use crate::rcode::ROp;
use crate::rcodegen::{compound_rop, RView};
use crate::rextend::{
    builds_on, ext_add_string, ext_after_cache_slot, ext_copy_reg, ext_emit, ext_fail,
    ext_get_prop, ext_here, ext_load_int, ext_load_name, ext_load_name_new, ext_mirror, ext_patch,
    ext_store_global, ext_store_name, ext_store_target, ext_take_temp, extension_is_extendable,
    is_extendable, lemma_extends_all, lemma_extends_self,
};
use crate::rextend_expressions::{extends_expr, extends_expr_into};
use crate::rextend_rules::{
    ext_add_constant_to_local, ext_add_constant_to_property, ext_assign_rest, ext_get_element,
    ext_hold, ext_rfuse_add, ext_rfuse_property_add, ext_rfuse_property_sum, ext_rstep_name,
    ext_store_rest, ext_store_result, ext_store_to_name, ext_test_undefined, ext_write_back,
};
use crate::rrules::{
    array_items_rrule, assign_held_rrule, assign_rest, assign_rrule, default_rrule,
    destructure_rrule, element_reg, element_store_rrule, element_targets_rrule, entry_keys_rrule,
    fills_last, get_element, hold, index_assign_rrule, into_local_rrule, item_keys_rrule,
    logical_assign_rrule, logical_element_rrule, name_assign_rrule, nested_rrule,
    object_items_rrule, pattern_rrule, postfix_element_rrule, property_target_rrule,
    property_targets_rrule, rfuse_add, rfuse_property_add, rfuse_property_sum, rgen_array_items,
    rgen_assign, rgen_assign_held, rgen_default, rgen_destructure, rgen_element_store,
    rgen_element_targets, rgen_entry_keys, rgen_expr, rgen_index_assign, rgen_into_local,
    rgen_item_keys, rgen_logical_assign, rgen_logical_element, rgen_name_assign, rgen_nested,
    rgen_object_items, rgen_pattern, rgen_postfix_element, rgen_property_target,
    rgen_property_targets, rgen_right, rgen_right_into, rgen_step, rgen_target, rgen_update,
    right_into_rrule, right_rrule, step_rrule, store_rest, stored_element, stored_property,
    target_rrule, test_undefined, update_rrule,
};
use crate::rules::{kept_items, keyed_entries, may_repeat};

verus! {

pub(crate) proof fn extends_pattern(s: RView, p: BindingPattern, source: u16)
    requires
        is_extendable(s),
    ensures
        ({
            let r = rgen_pattern(s, p, source);
            &&& builds_on(s, r)
            &&& forall|a: RView| #[trigger] builds_on(a, s) ==> builds_on(a, r)
            &&& s.instructions.len() <= r.instructions.len()
            &&& r.loop_stack.len() == s.loop_stack.len()
            &&& r.try_stack.len() == s.try_stack.len()
        }),
    decreases p, 4int, 0int, 1int,
{
    broadcast use extension_is_extendable;

    lemma_extends_self(s);
    let first = s;
    let r = rgen_pattern(s, p, source);
    reveal(pattern_rrule);
    assert(r == pattern_rrule(s, p, source));
    match p {
        BindingPattern::Array(items) => extends_array_items(s, items, source, 0),
        BindingPattern::Object(items) => extends_object_items(s, items, source, 0),
    }
    assert(builds_on(first, r));
    lemma_extends_all(first, r);
}

pub(crate) proof fn extends_array_items(s: RView, items: Vec<ArrayBindingItem>, source: u16, i: int)
    requires
        is_extendable(s),
    ensures
        ({
            let r = rgen_array_items(s, items, source, i);
            &&& builds_on(s, r)
            &&& forall|a: RView| #[trigger] builds_on(a, s) ==> builds_on(a, r)
            &&& s.instructions.len() <= r.instructions.len()
            &&& r.loop_stack.len() == s.loop_stack.len()
            &&& r.try_stack.len() == s.try_stack.len()
        }),
    decreases items, 1int, items@.len() - i, 1int,
{
    broadcast use {ext_get_element, ext_store_rest, extension_is_extendable};

    lemma_extends_self(s);
    let first = s;
    let r = rgen_array_items(s, items, source, i);
    reveal(array_items_rrule);
    assert(r == array_items_rrule(s, items, source, i));
    if 0 <= i < items@.len() {
        match items@[i] {
            ArrayBindingItem::Binding { target, default_value } => {
                let value = element_reg(s, i);
                let s = get_element(s, source, i);
                match default_value {
                    Some(d) => extends_default(s, d, value),
                    _ => {},
                }
                let s = match default_value {
                    Some(d) => rgen_default(s, d, value),
                    None => s,
                };
                extends_target(s, target, value);
            },
            _ => {},
        }
        let s = match items@[i] {
            ArrayBindingItem::Hole => s,
            ArrayBindingItem::Binding { target, default_value } => {
                let value = element_reg(s, i);
                let s = get_element(s, source, i);
                let s = match default_value {
                    Some(d) => rgen_default(s, d, value),
                    None => s,
                };
                rgen_target(s, target, value)
            },
            ArrayBindingItem::Rest { name } => store_rest(s, source, i, name@),
        };
        extends_array_items(s, items, source, i + 1);
    }
    assert(builds_on(first, r));
    lemma_extends_all(first, r);
}

pub(crate) proof fn extends_object_items(
    s: RView,
    items: Vec<ObjectBindingItem>,
    source: u16,
    i: int,
)
    requires
        is_extendable(s),
    ensures
        ({
            let r = rgen_object_items(s, items, source, i);
            &&& builds_on(s, r)
            &&& forall|a: RView| #[trigger] builds_on(a, s) ==> builds_on(a, r)
            &&& s.instructions.len() <= r.instructions.len()
            &&& r.loop_stack.len() == s.loop_stack.len()
            &&& r.try_stack.len() == s.try_stack.len()
        }),
    decreases items, 2int, items@.len() - i, 1int,
{
    broadcast use {ext_fail, ext_emit, ext_take_temp, ext_store_name, extension_is_extendable};

    lemma_extends_self(s);
    let first = s;
    let r = rgen_object_items(s, items, source, i);
    reveal(object_items_rrule);
    assert(r == object_items_rrule(s, items, source, i));
    if 0 <= i < items@.len() {
        let item = items@[i];
        if item.is_rest {
            extends_item_keys(s, items, 0);
        } else {
            let key = s.next_temp;
            extends_expr(s, item.key);
            let s = rgen_expr(s, item.key);
            let value = s.next_temp;
            let s = s.take_temp().emit(ROp::Index, seq![value, source, key]);
            match item.default_value {
                Some(d) => extends_default(s, d, value),
                _ => {},
            }
            let s = match item.default_value {
                Some(d) => rgen_default(s, d, value),
                None => s,
            };
            extends_target(s, item.target, value);
        }
        let s = if item.is_rest {
            let base = s.next_temp;
            let s = rgen_item_keys(s, items, 0);
            let rest = s.next_temp;
            let count = kept_items(items@, items@.len() as int) as u16;
            let s = s.take_temp().emit(ROp::ObjectRest, seq![rest, source, base, count]);
            match item.target {
                BindingTarget::Identifier(name) => s.store_name(name@, rest),
                BindingTarget::Pattern(_) => s.fail("object rest target must be identifier"@),
            }
        } else {
            let key = s.next_temp;
            let s = rgen_expr(s, item.key);
            let value = s.next_temp;
            let s = s.take_temp().emit(ROp::Index, seq![value, source, key]);
            let s = match item.default_value {
                Some(d) => rgen_default(s, d, value),
                None => s,
            };
            rgen_target(s, item.target, value)
        };
        extends_object_items(s, items, source, i + 1);
    }
    assert(builds_on(first, r));
    lemma_extends_all(first, r);
}

pub(crate) proof fn extends_item_keys(s: RView, items: Vec<ObjectBindingItem>, i: int)
    requires
        is_extendable(s),
    ensures
        ({
            let r = rgen_item_keys(s, items, i);
            &&& builds_on(s, r)
            &&& forall|a: RView| #[trigger] builds_on(a, s) ==> builds_on(a, r)
            &&& s.instructions.len() <= r.instructions.len()
            &&& r.loop_stack.len() == s.loop_stack.len()
            &&& r.try_stack.len() == s.try_stack.len()
        }),
    decreases items, 1int, items@.len() - i, 1int,
{
    broadcast use extension_is_extendable;

    lemma_extends_self(s);
    let first = s;
    let r = rgen_item_keys(s, items, i);
    reveal(item_keys_rrule);
    assert(r == item_keys_rrule(s, items, i));
    if i < 0 || i >= items@.len() {
    } else if items@[i].is_rest {
        extends_item_keys(s, items, i + 1);
    } else {
        extends_expr(s, items@[i].key);
        extends_item_keys(rgen_expr(s, items@[i].key), items, i + 1);
    }
    assert(builds_on(first, r));
    lemma_extends_all(first, r);
}

pub(crate) proof fn extends_target(s: RView, t: BindingTarget, source: u16)
    requires
        is_extendable(s),
    ensures
        ({
            let r = rgen_target(s, t, source);
            &&& builds_on(s, r)
            &&& forall|a: RView| #[trigger] builds_on(a, s) ==> builds_on(a, r)
            &&& s.instructions.len() <= r.instructions.len()
            &&& r.loop_stack.len() == s.loop_stack.len()
            &&& r.try_stack.len() == s.try_stack.len()
        }),
    decreases t, 4int, 0int, 1int,
{
    broadcast use {ext_store_name, extension_is_extendable};

    lemma_extends_self(s);
    let first = s;
    let r = rgen_target(s, t, source);
    reveal(target_rrule);
    assert(r == target_rrule(s, t, source));
    match t {
        BindingTarget::Pattern(p) => extends_pattern(s, *p, source),
        _ => {},
    }
    assert(builds_on(first, r));
    lemma_extends_all(first, r);
}

pub(crate) proof fn extends_default(s: RView, default: Expression, value: u16)
    requires
        is_extendable(s),
    ensures
        ({
            let r = rgen_default(s, default, value);
            &&& builds_on(s, r)
            &&& forall|a: RView| #[trigger] builds_on(a, s) ==> builds_on(a, r)
            &&& s.instructions.len() <= r.instructions.len()
            &&& r.loop_stack.len() == s.loop_stack.len()
            &&& r.try_stack.len() == s.try_stack.len()
        }),
    decreases default, 9int, 0int, 1int,
{
    broadcast use {ext_patch, ext_test_undefined, extension_is_extendable, ext_here};

    lemma_extends_self(s);
    let first = s;
    let r = rgen_default(s, default, value);
    reveal(default_rrule);
    assert(r == default_rrule(s, default, value));
    let (s, _) = test_undefined(s, value);
    extends_expr_into(s, default, value);
    assert(builds_on(first, r));
    lemma_extends_all(first, r);
}

pub(crate) proof fn extends_assign(s: RView, e: Expression, dst: u16)
    requires
        is_extendable(s),
    ensures
        ({
            let r = rgen_assign(s, e, dst);
            &&& builds_on(s, r)
            &&& forall|a: RView| #[trigger] builds_on(a, s) ==> builds_on(a, r)
            &&& s.instructions.len() <= r.instructions.len()
            &&& r.loop_stack.len() == s.loop_stack.len()
            &&& r.try_stack.len() == s.try_stack.len()
        }),
    decreases e, 5int, 1int, 1int,
{
    broadcast use {ext_fail, ext_copy_reg, extension_is_extendable};

    lemma_extends_self(s);
    let first = s;
    let r = rgen_assign(s, e, dst);
    reveal(assign_rrule);
    assert(r == assign_rrule(s, e, dst));
    match e {
        Expression::Assign { left, operator, right } => {
            match *left {
                Expression::Identifier(name) => extends_name_assign(s, name@, operator@, *right, dst),
                Expression::Index { .. } => extends_index_assign(s, e, operator@, Seq::empty(), dst),
                Expression::Array(_) => {
                    if operator@ == "="@ {
                        let source = s.next_temp;
                        extends_expr(s, *right);
                        extends_destructure(rgen_expr(s, *right), *left, source);
                    }
                },
                Expression::Hash(_) => {
                    if operator@ == "="@ {
                        let source = s.next_temp;
                        extends_expr(s, *right);
                        extends_destructure(rgen_expr(s, *right), *left, source);
                    }
                },
                _ => {},
            }
        },
        _ => {},
    }
    assert(builds_on(first, r));
    lemma_extends_all(first, r);
}

pub(crate) proof fn extends_into_local(s: RView, e: Expression, dst: u16)
    requires
        is_extendable(s),
    ensures
        ({
            let r = rgen_into_local(s, e, dst);
            &&& builds_on(s, r)
            &&& forall|a: RView| #[trigger] builds_on(a, s) ==> builds_on(a, r)
            &&& s.instructions.len() <= r.instructions.len()
            &&& r.loop_stack.len() == s.loop_stack.len()
            &&& r.try_stack.len() == s.try_stack.len()
        }),
    decreases e, 9int, 1int, 1int,
{
    broadcast use {ext_copy_reg, extension_is_extendable};

    lemma_extends_self(s);
    let first = s;
    let r = rgen_into_local(s, e, dst);
    reveal(into_local_rrule);
    assert(r == into_local_rrule(s, e, dst));
    if fills_last(e) {
        extends_expr_into(s, e, dst);
    } else {
        extends_expr(s, e);
    }
    assert(builds_on(first, r));
    lemma_extends_all(first, r);
}

pub(crate) proof fn extends_name_assign(
    s: RView,
    name: Seq<char>,
    operator: Seq<char>,
    right: Expression,
    dst: u16,
)
    requires
        is_extendable(s),
    ensures
        ({
            let r = rgen_name_assign(s, name, operator, right, dst);
            &&& builds_on(s, r)
            &&& forall|a: RView| #[trigger] builds_on(a, s) ==> builds_on(a, r)
            &&& s.instructions.len() <= r.instructions.len()
            &&& r.loop_stack.len() == s.loop_stack.len()
            &&& r.try_stack.len() == s.try_stack.len()
        }),
    decreases right, 10int, 0int, 1int,
{
    broadcast use {
        ext_fail,
        ext_emit,
        ext_take_temp,
        ext_copy_reg,
        ext_mirror,
        ext_store_global,
        ext_load_name,
        ext_store_result,
        ext_add_constant_to_local,
        ext_rfuse_add,
        extension_is_extendable,
    };

    lemma_extends_self(s);
    let first = s;
    let r = rgen_name_assign(s, name, operator, right, dst);
    reveal(name_assign_rrule);
    assert(r == name_assign_rrule(s, name, operator, right, dst));
    if s.const_bindings.contains(name) {
    } else if is_logical_assignment(operator) {
        extends_logical_assign(s, name, operator, right, dst);
    } else {
        match rfuse_add(s, name, operator, right) {
            (s, None) => {
                if operator == "="@ {
                    if s.locals.has(name) {
                        let r = s.locals.map[name];
                        extends_into_local(s, right, r);
                    } else {
                        extends_expr(s, right);
                    }
                } else {
                    match compound_rop(operator) {
                        Some(op) => {
                            let current = s.next_temp;
                            let s = s.take_temp().load_name(name, current);
                            extends_expr(s, right);
                        },
                        _ => {},
                    }
                }
            },
            _ => {},
        }
    }
    assert(builds_on(first, r));
    lemma_extends_all(first, r);
}

pub(crate) proof fn extends_logical_assign(
    s: RView,
    name: Seq<char>,
    operator: Seq<char>,
    right: Expression,
    dst: u16,
)
    requires
        is_extendable(s),
    ensures
        ({
            let r = rgen_logical_assign(s, name, operator, right, dst);
            &&& builds_on(s, r)
            &&& forall|a: RView| #[trigger] builds_on(a, s) ==> builds_on(a, r)
            &&& s.instructions.len() <= r.instructions.len()
            &&& r.loop_stack.len() == s.loop_stack.len()
            &&& r.try_stack.len() == s.try_stack.len()
        }),
    decreases right, 9int, 0int, 1int,
{
    broadcast use {
        ext_emit,
        ext_take_temp,
        ext_copy_reg,
        ext_load_name,
        ext_patch,
        ext_store_to_name,
        extension_is_extendable,
        ext_here,
    };

    lemma_extends_self(s);
    let first = s;
    let r = rgen_logical_assign(s, name, operator, right, dst);
    reveal(logical_assign_rrule);
    assert(r == logical_assign_rrule(s, name, operator, right, dst));
    let current = s.next_temp;
    let s = s.take_temp().load_name(name, current);
    if operator == "&&="@ || operator == "||="@ {
        let s = s.copy_reg(dst, current);
        let s = if operator == "&&="@ {
            s.emit(ROp::JumpIfNot, seq![dst, PLACEHOLDER])
        } else {
            s.emit(ROp::JumpIfTruthy, seq![dst, PLACEHOLDER])
        };
        extends_expr_into(s, right, dst);
    } else {
        let nullish = s.next_temp;
        let s = s.take_temp().emit(ROp::IsNullish, seq![nullish, current]);
        let s = s.emit(ROp::JumpIfNot, seq![nullish, PLACEHOLDER]);
        extends_expr_into(s, right, dst);
    }
    assert(builds_on(first, r));
    lemma_extends_all(first, r);
}

pub(crate) proof fn extends_right_into(s: RView, e: Expression, held: Seq<char>, dst: u16)
    requires
        is_extendable(s),
    ensures
        ({
            let r = rgen_right_into(s, e, held, dst);
            &&& builds_on(s, r)
            &&& forall|a: RView| #[trigger] builds_on(a, s) ==> builds_on(a, r)
            &&& s.instructions.len() <= r.instructions.len()
            &&& r.loop_stack.len() == s.loop_stack.len()
            &&& r.try_stack.len() == s.try_stack.len()
        }),
    decreases e, 2int, 0int, 1int,
{
    broadcast use {ext_load_int, ext_load_name, extension_is_extendable};

    lemma_extends_self(s);
    let first = s;
    let r = rgen_right_into(s, e, held, dst);
    reveal(right_into_rrule);
    assert(r == right_into_rrule(s, e, held, dst));
    match e {
        Expression::Assign { right, .. } => extends_expr_into(s, *right, dst),
        _ => {},
    }
    assert(builds_on(first, r));
    lemma_extends_all(first, r);
}

pub(crate) proof fn extends_right(s: RView, e: Expression, held: Seq<char>)
    requires
        is_extendable(s),
    ensures
        ({
            let r = rgen_right(s, e, held);
            &&& builds_on(s, r)
            &&& forall|a: RView| #[trigger] builds_on(a, s) ==> builds_on(a, r)
            &&& s.instructions.len() <= r.instructions.len()
            &&& r.loop_stack.len() == s.loop_stack.len()
            &&& r.try_stack.len() == s.try_stack.len()
        }),
    decreases e, 3int, 0int, 1int,
{
    broadcast use {ext_take_temp, extension_is_extendable};

    lemma_extends_self(s);
    let first = s;
    let r = rgen_right(s, e, held);
    reveal(right_rrule);
    assert(r == right_rrule(s, e, held));
    extends_right_into(s.take_temp(), e, held, s.next_temp);
    assert(builds_on(first, r));
    lemma_extends_all(first, r);
}

pub(crate) proof fn extends_index_assign(
    s: RView,
    e: Expression,
    operator: Seq<char>,
    held: Seq<char>,
    dst: u16,
)
    requires
        is_extendable(s),
    ensures
        ({
            let r = rgen_index_assign(s, e, operator, held, dst);
            &&& builds_on(s, r)
            &&& forall|a: RView| #[trigger] builds_on(a, s) ==> builds_on(a, r)
            &&& s.instructions.len() <= r.instructions.len()
            &&& r.loop_stack.len() == s.loop_stack.len()
            &&& r.try_stack.len() == s.try_stack.len()
        }),
    decreases e, 5int, 0int, 1int,
{
    broadcast use {
        ext_emit,
        ext_after_cache_slot,
        ext_add_string,
        ext_get_prop,
        ext_rfuse_property_add,
        ext_add_constant_to_property,
        ext_rfuse_property_sum,
        extension_is_extendable,
    };

    lemma_extends_self(s);
    let first = s;
    let r = rgen_index_assign(s, e, operator, held, dst);
    reveal(index_assign_rrule);
    assert(r == index_assign_rrule(s, e, operator, held, dst));
    match rfuse_property_add(s, e, operator) {
        (s, None) => {
            match rfuse_property_sum(s, e, operator) {
                (s, None) => {
                    match stored_property(s, e, operator) {
                        Some((slot, prop)) => {
                            let (s, _) = s.add_string(prop);
                            extends_right_into(s.after_cache_slot(), e, held, dst);
                        },
                        None => {
                            if is_logical_assignment(operator) {
                                extends_logical_element(s, e, operator, held, dst);
                            } else {
                                extends_element_store(s, e, operator, held, dst);
                            }
                        },
                    }
                },
                _ => {},
            }
        },
        _ => {},
    }
    assert(builds_on(first, r));
    lemma_extends_all(first, r);
}

pub(crate) proof fn extends_logical_element(
    s: RView,
    e: Expression,
    operator: Seq<char>,
    held: Seq<char>,
    dst: u16,
)
    requires
        is_extendable(s),
    ensures
        ({
            let r = rgen_logical_element(s, e, operator, held, dst);
            &&& builds_on(s, r)
            &&& forall|a: RView| #[trigger] builds_on(a, s) ==> builds_on(a, r)
            &&& s.instructions.len() <= r.instructions.len()
            &&& r.loop_stack.len() == s.loop_stack.len()
            &&& r.try_stack.len() == s.try_stack.len()
        }),
    decreases e, 4int, 0int, 1int,
{
    broadcast use {
        ext_emit,
        ext_take_temp,
        ext_patch,
        ext_write_back,
        extension_is_extendable,
        ext_here,
    };

    lemma_extends_self(s);
    let first = s;
    let r = rgen_logical_element(s, e, operator, held, dst);
    reveal(logical_element_rrule);
    assert(r == logical_element_rrule(s, e, operator, held, dst));
    match stored_element(e) {
        Some((object, index)) => {
            let o = s.next_temp;
            extends_expr(s, object);
            let s = rgen_expr(s, object);
            let k = s.next_temp;
            extends_expr(s, index);
            let s = rgen_expr(s, index);
            let old = s.next_temp;
            let s = s.take_temp().emit(ROp::Index, seq![old, o, k]);
            let (s, _) = if operator == "||="@ {
                (s.emit(ROp::JumpIfTruthy, seq![old, PLACEHOLDER]), s.here())
            } else if operator == "&&="@ {
                (s.emit(ROp::JumpIfNot, seq![old, PLACEHOLDER]), s.here())
            } else {
                let nullish = s.next_temp;
                let s = s.take_temp().emit(ROp::IsNullish, seq![nullish, old]);
                (s.emit(ROp::JumpIfNot, seq![nullish, PLACEHOLDER]), s.here())
            };
            extends_right(s, e, held);
        },
        _ => {},
    }
    assert(builds_on(first, r));
    lemma_extends_all(first, r);
}

pub(crate) proof fn extends_element_store(
    s: RView,
    e: Expression,
    operator: Seq<char>,
    held: Seq<char>,
    dst: u16,
)
    requires
        is_extendable(s),
    ensures
        ({
            let r = rgen_element_store(s, e, operator, held, dst);
            &&& builds_on(s, r)
            &&& forall|a: RView| #[trigger] builds_on(a, s) ==> builds_on(a, r)
            &&& s.instructions.len() <= r.instructions.len()
            &&& r.loop_stack.len() == s.loop_stack.len()
            &&& r.try_stack.len() == s.try_stack.len()
        }),
    decreases e, 4int, 0int, 1int,
{
    broadcast use {
        ext_fail,
        ext_emit,
        ext_take_temp,
        ext_copy_reg,
        ext_write_back,
        extension_is_extendable,
    };

    lemma_extends_self(s);
    let first = s;
    let r = rgen_element_store(s, e, operator, held, dst);
    reveal(element_store_rrule);
    assert(r == element_store_rrule(s, e, operator, held, dst));
    match stored_element(e) {
        Some((object, index)) => {
            if !(operator != "="@ && compound_rop(operator) is None) {
                let o = s.next_temp;
                extends_expr(s, object);
                let s = rgen_expr(s, object);
                let k = s.next_temp;
                extends_expr(s, index);
                let s = rgen_expr(s, index);
                match compound_rop(operator) {
                    Some(op) => {
                        let old = s.next_temp;
                        let s = s.take_temp().emit(ROp::Index, seq![old, o, k]);
                        extends_right(s, e, held);
                    },
                    None => extends_right(s, e, held),
                }
            }
        },
        _ => {},
    }
    assert(builds_on(first, r));
    lemma_extends_all(first, r);
}

pub(crate) proof fn extends_update(s: RView, e: Expression, dst: u16)
    requires
        is_extendable(s),
    ensures
        ({
            let r = rgen_update(s, e, dst);
            &&& builds_on(s, r)
            &&& forall|a: RView| #[trigger] builds_on(a, s) ==> builds_on(a, r)
            &&& s.instructions.len() <= r.instructions.len()
            &&& r.loop_stack.len() == s.loop_stack.len()
            &&& r.try_stack.len() == s.try_stack.len()
        }),
    decreases e, 5int, 2int, 1int,
{
    broadcast use {ext_fail, ext_take_temp, ext_copy_reg, extension_is_extendable};

    lemma_extends_self(s);
    let first = s;
    let r = rgen_update(s, e, dst);
    reveal(update_rrule);
    assert(r == update_rrule(s, e, dst));
    match e {
        Expression::Update { target, operator, prefix } => {
            let assign = if operator@ == "++"@ {
                "+="@
            } else {
                "-="@
            };
            if operator@ != "++"@ && operator@ != "--"@ {
            } else if prefix {
                extends_step(s, e, assign, dst);
            } else if may_repeat(*target) {
                let old = s.next_temp;
                extends_expr(s, *target);
                let s = rgen_expr(s, *target).copy_reg(dst, old);
                extends_step(s.take_temp(), e, assign, s.next_temp);
            } else {
                extends_postfix_element(s, *target, assign, dst);
            }
        },
        _ => {},
    }
    assert(builds_on(first, r));
    lemma_extends_all(first, r);
}

pub(crate) proof fn extends_postfix_element(
    s: RView,
    target: Expression,
    assign: Seq<char>,
    dst: u16,
)
    requires
        is_extendable(s),
    ensures
        ({
            let r = rgen_postfix_element(s, target, assign, dst);
            &&& builds_on(s, r)
            &&& forall|a: RView| #[trigger] builds_on(a, s) ==> builds_on(a, r)
            &&& s.instructions.len() <= r.instructions.len()
            &&& r.loop_stack.len() == s.loop_stack.len()
            &&& r.try_stack.len() == s.try_stack.len()
        }),
    decreases target, 9int, 0int, 1int,
{
    broadcast use {
        ext_emit,
        ext_take_temp,
        ext_copy_reg,
        ext_load_int,
        ext_write_back,
        extension_is_extendable,
    };

    lemma_extends_self(s);
    let first = s;
    let r = rgen_postfix_element(s, target, assign, dst);
    reveal(postfix_element_rrule);
    assert(r == postfix_element_rrule(s, target, assign, dst));
    match target {
        Expression::Index { left, index } => {
            extends_expr(s, *left);
            let s = rgen_expr(s, *left);
            extends_expr(s, *index);
        },
        _ => {},
    }
    assert(builds_on(first, r));
    lemma_extends_all(first, r);
}

pub(crate) proof fn extends_step(s: RView, e: Expression, assign: Seq<char>, dst: u16)
    requires
        is_extendable(s),
    ensures
        ({
            let r = rgen_step(s, e, assign, dst);
            &&& builds_on(s, r)
            &&& forall|a: RView| #[trigger] builds_on(a, s) ==> builds_on(a, r)
            &&& s.instructions.len() <= r.instructions.len()
            &&& r.loop_stack.len() == s.loop_stack.len()
            &&& r.try_stack.len() == s.try_stack.len()
        }),
    decreases e, 5int, 1int, 1int,
{
    broadcast use {ext_fail, ext_rstep_name, extension_is_extendable};

    lemma_extends_self(s);
    let first = s;
    let r = rgen_step(s, e, assign, dst);
    reveal(step_rrule);
    assert(r == step_rrule(s, e, assign, dst));
    match e {
        Expression::Update { target, .. } => {
            match *target {
                Expression::Index { .. } => extends_index_assign(s, e, assign, Seq::empty(), dst),
                _ => {},
            }
        },
        _ => {},
    }
    assert(builds_on(first, r));
    lemma_extends_all(first, r);
}

pub(crate) proof fn extends_destructure(s: RView, target: Expression, source: u16)
    requires
        is_extendable(s),
    ensures
        ({
            let r = rgen_destructure(s, target, source);
            &&& builds_on(s, r)
            &&& forall|a: RView| #[trigger] builds_on(a, s) ==> builds_on(a, r)
            &&& s.instructions.len() <= r.instructions.len()
            &&& r.loop_stack.len() == s.loop_stack.len()
            &&& r.try_stack.len() == s.try_stack.len()
        }),
    decreases target, 10int, 0int, 1int,
{
    broadcast use extension_is_extendable;

    lemma_extends_self(s);
    let first = s;
    let r = rgen_destructure(s, target, source);
    reveal(destructure_rrule);
    assert(r == destructure_rrule(s, target, source));
    match target {
        Expression::Array(items) => extends_element_targets(s, items, source, 0),
        Expression::Hash(entries) => extends_property_targets(s, entries, source, 0),
        _ => {},
    }
    assert(builds_on(first, r));
    lemma_extends_all(first, r);
}

pub(crate) proof fn extends_nested(s: RView, target: Expression, held: Seq<char>, dst: u16)
    requires
        is_extendable(s),
    ensures
        ({
            let r = rgen_nested(s, target, held, dst);
            &&& builds_on(s, r)
            &&& forall|a: RView| #[trigger] builds_on(a, s) ==> builds_on(a, r)
            &&& s.instructions.len() <= r.instructions.len()
            &&& r.loop_stack.len() == s.loop_stack.len()
            &&& r.try_stack.len() == s.try_stack.len()
        }),
    decreases target, 11int, 0int, 1int,
{
    broadcast use {ext_copy_reg, ext_load_name_new, extension_is_extendable};

    lemma_extends_self(s);
    let first = s;
    let r = rgen_nested(s, target, held, dst);
    reveal(nested_rrule);
    assert(r == nested_rrule(s, target, held, dst));
    let source = s.next_temp;
    extends_destructure(s.load_name_new(held), target, source);
    assert(builds_on(first, r));
    lemma_extends_all(first, r);
}

pub(crate) proof fn extends_element_targets(s: RView, items: Vec<Expression>, source: u16, i: int)
    requires
        is_extendable(s),
    ensures
        ({
            let r = rgen_element_targets(s, items, source, i);
            &&& builds_on(s, r)
            &&& forall|a: RView| #[trigger] builds_on(a, s) ==> builds_on(a, r)
            &&& s.instructions.len() <= r.instructions.len()
            &&& r.loop_stack.len() == s.loop_stack.len()
            &&& r.try_stack.len() == s.try_stack.len()
        }),
    decreases items, 1int, items@.len() - i, 1int,
{
    broadcast use {
        ext_fail,
        ext_store_target,
        ext_get_element,
        ext_assign_rest,
        ext_hold,
        extension_is_extendable,
    };

    lemma_extends_self(s);
    let first = s;
    let r = rgen_element_targets(s, items, source, i);
    reveal(element_targets_rrule);
    assert(r == element_targets_rrule(s, items, source, i));
    if 0 <= i < items@.len() {
        let value = element_reg(s, i);
        match items@[i] {
            Expression::Assign { left, operator, right } => {
                if operator@ == "="@ {
                    extends_default(get_element(s, source, i), *right, value);
                    let s = rgen_default(get_element(s, source, i), *right, value);
                    match *left {
                        Expression::Array(_) | Expression::Hash(_) => {
                            extends_destructure(s, *left, value);
                        },
                        _ => {},
                    }
                }
            },
            Expression::Array(_) | Expression::Hash(_) => {
                let (s, name) = hold(get_element(s, source, i), "arr_nested"@, value);
                extends_nested(s, items@[i], name, value);
            },
            _ => {},
        }
        let s = match items@[i] {
            Expression::Spread { value: rest } => if i + 1 != items@.len() {
                s.fail("array rest element in assignment must be last"@)
            } else {
                match *rest {
                    Expression::Identifier(name) => assign_rest(s, source, i, name@),
                    _ => s.fail("array rest assignment requires identifier target"@),
                }
            },
            Expression::Identifier(name) => get_element(s, source, i).store_target(name@, value),
            Expression::Assign { left, operator, right } => if operator@ == "="@ {
                let s = rgen_default(get_element(s, source, i), *right, value);
                match *left {
                    Expression::Identifier(name) => s.store_target(name@, value),
                    Expression::Array(_) | Expression::Hash(_) => rgen_destructure(
                        s,
                        *left,
                        value,
                    ),
                    _ => s.fail(
                        "array destructuring supports identifier or nested pattern targets"@,
                    ),
                }
            } else {
                s.fail("array destructuring assignment supports identifier targets"@)
            },
            Expression::Array(_) | Expression::Hash(_) => {
                let (s, name) = hold(get_element(s, source, i), "arr_nested"@, value);
                rgen_nested(s, items@[i], name, value)
            },
            _ => s.fail("array destructuring assignment supports identifier targets"@),
        };
        extends_element_targets(s, items, source, i + 1);
    }
    assert(builds_on(first, r));
    lemma_extends_all(first, r);
}

pub(crate) proof fn extends_entry_keys(s: RView, entries: Vec<HashEntry>, i: int)
    requires
        is_extendable(s),
    ensures
        ({
            let r = rgen_entry_keys(s, entries, i);
            &&& builds_on(s, r)
            &&& forall|a: RView| #[trigger] builds_on(a, s) ==> builds_on(a, r)
            &&& s.instructions.len() <= r.instructions.len()
            &&& r.loop_stack.len() == s.loop_stack.len()
            &&& r.try_stack.len() == s.try_stack.len()
        }),
    decreases entries, 1int, entries@.len() - i, 1int,
{
    broadcast use extension_is_extendable;

    lemma_extends_self(s);
    let first = s;
    let r = rgen_entry_keys(s, entries, i);
    reveal(entry_keys_rrule);
    assert(r == entry_keys_rrule(s, entries, i));
    if 0 <= i < entries@.len() {
        match entries@[i] {
            HashEntry::KeyValue { key, .. } => extends_expr(s, key),
            HashEntry::Method { key, .. } => extends_expr(s, key),
            HashEntry::Getter { key, .. } => extends_expr(s, key),
            HashEntry::Setter { key, .. } => extends_expr(s, key),
            _ => {},
        }
        let s = match entries@[i] {
            HashEntry::Spread(_) => s,
            HashEntry::KeyValue { key, .. } => rgen_expr(s, key),
            HashEntry::Method { key, .. } => rgen_expr(s, key),
            HashEntry::Getter { key, .. } => rgen_expr(s, key),
            HashEntry::Setter { key, .. } => rgen_expr(s, key),
        };
        extends_entry_keys(s, entries, i + 1);
    }
    assert(builds_on(first, r));
    lemma_extends_all(first, r);
}

pub(crate) proof fn extends_property_targets(s: RView, entries: Vec<HashEntry>, source: u16, i: int)
    requires
        is_extendable(s),
    ensures
        ({
            let r = rgen_property_targets(s, entries, source, i);
            &&& builds_on(s, r)
            &&& forall|a: RView| #[trigger] builds_on(a, s) ==> builds_on(a, r)
            &&& s.instructions.len() <= r.instructions.len()
            &&& r.loop_stack.len() == s.loop_stack.len()
            &&& r.try_stack.len() == s.try_stack.len()
        }),
    decreases entries, 2int, entries@.len() - i, 1int,
{
    broadcast use {ext_fail, ext_emit, ext_take_temp, ext_store_target, extension_is_extendable};

    lemma_extends_self(s);
    let first = s;
    let r = rgen_property_targets(s, entries, source, i);
    reveal(property_targets_rrule);
    assert(r == property_targets_rrule(s, entries, source, i));
    if 0 <= i < entries@.len() {
        match entries@[i] {
            HashEntry::Spread(target) => {
                match target {
                    Expression::Identifier(name) => extends_entry_keys(s, entries, 0),
                    _ => {},
                }
            },
            HashEntry::KeyValue { key, value: target } => {
                let k = s.next_temp;
                extends_expr(s, key);
                let s = rgen_expr(s, key);
                let value = s.next_temp;
                let s = s.take_temp().emit(ROp::Index, seq![value, source, k]);
                extends_property_target(s, target, value);
            },
            _ => {},
        }
        let s = match entries@[i] {
            HashEntry::Spread(target) => match target {
                Expression::Identifier(name) => {
                    let base = s.next_temp;
                    let s = rgen_entry_keys(s, entries, 0);
                    let rest = s.next_temp;
                    let count = keyed_entries(entries@, entries@.len() as int) as u16;
                    s.take_temp().emit(
                        ROp::ObjectRest,
                        seq![rest, source, base, count],
                    ).store_target(name@, rest)
                },
                _ => s.fail("object rest destructuring requires identifier target"@),
            },
            HashEntry::KeyValue { key, value: target } => {
                let k = s.next_temp;
                let s = rgen_expr(s, key);
                let value = s.next_temp;
                let s = s.take_temp().emit(ROp::Index, seq![value, source, k]);
                rgen_property_target(s, target, value)
            },
            _ => s.fail("methods/getters/setters not valid in destructuring assignment"@),
        };
        extends_property_targets(s, entries, source, i + 1);
    }
    assert(builds_on(first, r));
    lemma_extends_all(first, r);
}

pub(crate) proof fn extends_property_target(s: RView, target: Expression, value: u16)
    requires
        is_extendable(s),
    ensures
        ({
            let r = rgen_property_target(s, target, value);
            &&& builds_on(s, r)
            &&& forall|a: RView| #[trigger] builds_on(a, s) ==> builds_on(a, r)
            &&& s.instructions.len() <= r.instructions.len()
            &&& r.loop_stack.len() == s.loop_stack.len()
            &&& r.try_stack.len() == s.try_stack.len()
        }),
    decreases target, 12int, 0int, 1int,
{
    broadcast use {ext_fail, ext_take_temp, ext_store_target, ext_hold, extension_is_extendable};

    lemma_extends_self(s);
    let first = s;
    let r = rgen_property_target(s, target, value);
    reveal(property_target_rrule);
    assert(r == property_target_rrule(s, target, value));
    match target {
        Expression::Assign { left, operator, right } => {
            if operator@ == "="@ {
                extends_default(s, *right, value);
                let s = rgen_default(s, *right, value);
                match *left {
                    Expression::Identifier(name) => {},
                    _ => {
                        let (s, name) = hold(s, "obj_nested"@, value);
                        extends_assign_held(s.take_temp(), *left, name, s.next_temp);
                    },
                }
            }
        },
        Expression::Array(_) | Expression::Hash(_) => {
            let (s, name) = hold(s, "obj_nested"@, value);
            extends_nested(s.take_temp(), target, name, s.next_temp);
        },
        _ => {},
    }
    assert(builds_on(first, r));
    lemma_extends_all(first, r);
}

pub(crate) proof fn extends_assign_held(s: RView, target: Expression, held: Seq<char>, dst: u16)
    requires
        is_extendable(s),
    ensures
        ({
            let r = rgen_assign_held(s, target, held, dst);
            &&& builds_on(s, r)
            &&& forall|a: RView| #[trigger] builds_on(a, s) ==> builds_on(a, r)
            &&& s.instructions.len() <= r.instructions.len()
            &&& r.loop_stack.len() == s.loop_stack.len()
            &&& r.try_stack.len() == s.try_stack.len()
        }),
    decreases target, 12int, 0int, 1int,
{
    broadcast use {ext_fail, extension_is_extendable};

    lemma_extends_self(s);
    let first = s;
    let r = rgen_assign_held(s, target, held, dst);
    reveal(assign_held_rrule);
    assert(r == assign_held_rrule(s, target, held, dst));
    match target {
        Expression::Array(_) | Expression::Hash(_) => extends_nested(s, target, held, dst),
        Expression::Index { .. } => extends_index_assign(s, target, "="@, held, dst),
        _ => {},
    }
    assert(builds_on(first, r));
    lemma_extends_all(first, r);
}

} // verus!
