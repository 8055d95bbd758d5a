//! What assignments and destructuring of the stack compiler keep.
use vstd::prelude::*;

use crate::ast::{
    ArrayBindingItem, BindingPattern, BindingTarget, Expression, HashEntry, ObjectBindingItem,
};
use crate::code::Opcode;
use crate::codegen::{compound_opcode, is_logical_assignment, CompilerView, PLACEHOLDER, Slot};
use crate::keep_expressions::keeps_expr;
use crate::rules::{
    array_items_rule, assign_rule, default_rule, destructure_rule, element_store_rule,
    element_targets_rule, entry_keys_rule, gen_array_items, gen_assign, gen_default,
    gen_destructure, gen_element_store, gen_element_targets, gen_entry_keys, gen_expr,
    gen_held_store, gen_index_assign, gen_item_keys, gen_logical_assign, gen_name_assign,
    gen_nested, gen_new_value, gen_object_items, gen_pattern, gen_property_target,
    gen_property_targets, gen_right, gen_step, gen_target, gen_update, held_store_rule,
    index_assign_rule, index_target, is_plain_key, item_keys_rule, kept_items, keyed_entries,
    logical_assign_rule, may_repeat, name_assign_rule, nested_rule, new_value_rule,
    object_items_rule, pattern_rule, property_target_rule, property_targets_rule, right_rule,
    step_rule, target_rule, update_rule,
};
use crate::sound::{
    grows, growth_is_sound, is_sound, jump_stays, lemma_grows_all, lemma_grows_self,
    step_add_string, step_after_cache_slot, step_after_temp, step_assign_target, step_assign_top,
    step_emit, step_emit0, step_emit1, step_fail, step_load, step_name_slot, step_patch,
    step_push_element, step_push_int, step_push_name, step_push_rest, step_push_string,
    step_set_name, step_step_name, step_store,
};

verus! {

pub(crate) proof fn keeps_pattern(s: CompilerView, p: BindingPattern)
    requires
        is_sound(s),
    ensures
        ({
            let r = gen_pattern(s, p);
            &&& grows(s, r)
            &&& forall|a: CompilerView| #[trigger] grows(a, s) ==> grows(a, r)
        }),
    decreases p, 4int, 0int, 1int,
{
    broadcast use {growth_is_sound, step_after_temp, step_assign_top};

    lemma_grows_self(s);
    let first = s;
    let r = gen_pattern(s, p);
    reveal(pattern_rule);
    assert(r == pattern_rule(s, p));
    let source = s.temp("destr"@);
    let s = s.after_temp().assign_top(source);
    match p {
        BindingPattern::Array(items) => keeps_array_items(s, items, source, 0),
        BindingPattern::Object(items) => keeps_object_items(s, items, source, 0),
    }
    assert(grows(first, r));
    lemma_grows_all(first, r);
}

pub(crate) proof fn keeps_array_items(
    s: CompilerView,
    items: Vec<ArrayBindingItem>,
    source: Seq<char>,
    i: int,
)
    requires
        is_sound(s),
    ensures
        ({
            let r = gen_array_items(s, items, source, i);
            &&& grows(s, r)
            &&& forall|a: CompilerView| #[trigger] grows(a, s) ==> grows(a, r)
        }),
    decreases items, 1int, items@.len() - i, 1int,
{
    broadcast use {growth_is_sound, step_assign_top, step_push_element, step_push_rest};

    lemma_grows_self(s);
    let first = s;
    let r = gen_array_items(s, items, source, i);
    reveal(array_items_rule);
    assert(r == array_items_rule(s, items, source, i));
    if 0 <= i < items@.len() {
        match items@[i] {
            ArrayBindingItem::Binding { target, default_value } => {
                let s = s.push_element(source, i);
                match default_value {
                    Some(d) => keeps_default(s, d),
                    _ => {},
                }
                let s = match default_value {
                    Some(d) => gen_default(s, d),
                    None => s,
                };
                keeps_target(s, target);
            },
            _ => {},
        }
        let s = match items@[i] {
            ArrayBindingItem::Hole => s,
            ArrayBindingItem::Binding { target, default_value } => {
                let s = s.push_element(source, i);
                let s = match default_value {
                    Some(d) => gen_default(s, d),
                    None => s,
                };
                gen_target(s, target)
            },
            ArrayBindingItem::Rest { name } => s.push_rest(source, i).assign_top(name@),
        };
        keeps_array_items(s, items, source, i + 1);
    }
    assert(grows(first, r));
    lemma_grows_all(first, r);
}

pub(crate) proof fn keeps_object_items(
    s: CompilerView,
    items: Vec<ObjectBindingItem>,
    source: Seq<char>,
    i: int,
)
    requires
        is_sound(s),
    ensures
        ({
            let r = gen_object_items(s, items, source, i);
            &&& grows(s, r)
            &&& forall|a: CompilerView| #[trigger] grows(a, s) ==> grows(a, r)
        }),
    decreases items, 2int, items@.len() - i, 1int,
{
    broadcast use {
        growth_is_sound,
        step_emit0,
        step_emit1,
        step_fail,
        step_assign_top,
        step_push_name,
    };

    lemma_grows_self(s);
    let first = s;
    let r = gen_object_items(s, items, source, i);
    reveal(object_items_rule);
    assert(r == object_items_rule(s, items, source, i));
    if 0 <= i < items@.len() {
        let item = items@[i];
        if item.is_rest {
            keeps_item_keys(s.push_name(source), items, 0);
        } else {
            keeps_expr(s.push_name(source), item.key);
            let s = gen_expr(s.push_name(source), item.key).emit0(Opcode::OpIndex);
            match item.default_value {
                Some(d) => keeps_default(s, d),
                _ => {},
            }
            let s = match item.default_value {
                Some(d) => gen_default(s, d),
                None => s,
            };
            keeps_target(s, item.target);
        }
        let s = if item.is_rest {
            let s = gen_item_keys(s.push_name(source), items, 0);
            let s = s.emit1(Opcode::OpObjectRest, kept_items(items@, items@.len() as int) as u16);
            match item.target {
                BindingTarget::Identifier(name) => s.assign_top(name@),
                BindingTarget::Pattern(_) => s.fail("object rest target must be identifier"@),
            }
        } else {
            let s = gen_expr(s.push_name(source), item.key).emit0(Opcode::OpIndex);
            let s = match item.default_value {
                Some(d) => gen_default(s, d),
                None => s,
            };
            gen_target(s, item.target)
        };
        keeps_object_items(s, items, source, i + 1);
    }
    assert(grows(first, r));
    lemma_grows_all(first, r);
}

pub(crate) proof fn keeps_item_keys(s: CompilerView, items: Vec<ObjectBindingItem>, i: int)
    requires
        is_sound(s),
    ensures
        ({
            let r = gen_item_keys(s, items, i);
            &&& grows(s, r)
            &&& forall|a: CompilerView| #[trigger] grows(a, s) ==> grows(a, r)
        }),
    decreases items, 1int, items@.len() - i, 1int,
{
    broadcast use growth_is_sound;

    lemma_grows_self(s);
    let first = s;
    let r = gen_item_keys(s, items, i);
    reveal(item_keys_rule);
    assert(r == item_keys_rule(s, items, i));
    if i < 0 || i >= items@.len() {
    } else if items@[i].is_rest {
        keeps_item_keys(s, items, i + 1);
    } else {
        keeps_expr(s, items@[i].key);
        keeps_item_keys(gen_expr(s, items@[i].key), items, i + 1);
    }
    assert(grows(first, r));
    lemma_grows_all(first, r);
}

pub(crate) proof fn keeps_target(s: CompilerView, t: BindingTarget)
    requires
        is_sound(s),
    ensures
        ({
            let r = gen_target(s, t);
            &&& grows(s, r)
            &&& forall|a: CompilerView| #[trigger] grows(a, s) ==> grows(a, r)
        }),
    decreases t, 4int, 0int, 1int,
{
    broadcast use {growth_is_sound, step_assign_top};

    lemma_grows_self(s);
    let first = s;
    let r = gen_target(s, t);
    reveal(target_rule);
    assert(r == target_rule(s, t));
    match t {
        BindingTarget::Pattern(p) => keeps_pattern(s, *p),
        _ => {},
    }
    assert(grows(first, r));
    lemma_grows_all(first, r);
}

pub(crate) proof fn keeps_default(s: CompilerView, default: Expression)
    requires
        is_sound(s),
    ensures
        ({
            let r = gen_default(s, default);
            &&& grows(s, r)
            &&& forall|a: CompilerView| #[trigger] grows(a, s) ==> grows(a, r)
        }),
    decreases default, 8int, 0int, 1int,
{
    broadcast use {
        growth_is_sound,
        step_patch,
        step_emit0,
        step_emit1,
        step_after_temp,
        step_push_string,
        step_assign_top,
        step_push_name,
        jump_stays,
    };

    lemma_grows_self(s);
    let first = s;
    let r = gen_default(s, default);
    reveal(default_rule);
    assert(r == default_rule(s, default));
    let held = s.temp("destr_val"@);
    let s = s.after_temp().assign_top(held).push_name(held).emit0(Opcode::OpTypeof);
    let s = s.push_string("undefined"@).emit0(Opcode::OpEqual);
    let s = s.emit1(Opcode::OpJumpNotTruthy, PLACEHOLDER);
    keeps_expr(s, default);
    assert(grows(first, r));
    lemma_grows_all(first, r);
}

pub(crate) proof fn keeps_assign(s: CompilerView, e: Expression)
    requires
        is_sound(s),
    ensures
        ({
            let r = gen_assign(s, e);
            &&& grows(s, r)
            &&& forall|a: CompilerView| #[trigger] grows(a, s) ==> grows(a, r)
        }),
    decreases e, 5int, 1int, 1int,
{
    broadcast use {growth_is_sound, step_fail};

    lemma_grows_self(s);
    let first = s;
    let r = gen_assign(s, e);
    reveal(assign_rule);
    assert(r == assign_rule(s, e));
    match e {
        Expression::Assign { left, operator, right } => {
            match *left {
                Expression::Identifier(name) => keeps_name_assign(s, name@, operator@, *right),
                Expression::Index { .. } => keeps_index_assign(s, e, operator@),
                Expression::Array(_) => {
                    if operator@ == "="@ {
                        keeps_expr(s, *right);
                        keeps_destructure(gen_expr(s, *right), *left);
                    }
                },
                Expression::Hash(_) => {
                    if operator@ == "="@ {
                        keeps_expr(s, *right);
                        keeps_destructure(gen_expr(s, *right), *left);
                    }
                },
                _ => {},
            }
        },
        _ => {},
    }
    assert(grows(first, r));
    lemma_grows_all(first, r);
}

pub(crate) proof fn keeps_name_assign(
    s: CompilerView,
    name: Seq<char>,
    operator: Seq<char>,
    right: Expression,
)
    requires
        is_sound(s),
    ensures
        ({
            let r = gen_name_assign(s, name, operator, right);
            &&& grows(s, r)
            &&& forall|a: CompilerView| #[trigger] grows(a, s) ==> grows(a, r)
        }),
    decreases right, 9int, 0int, 1int,
{
    broadcast use {
        growth_is_sound,
        step_emit0,
        step_fail,
        step_name_slot,
        step_load,
        step_store,
        step_set_name,
    };

    lemma_grows_self(s);
    let first = s;
    let r = gen_name_assign(s, name, operator, right);
    reveal(name_assign_rule);
    assert(r == name_assign_rule(s, name, operator, right));
    if s.const_bindings.contains(name) {
    } else if operator == "="@ {
        keeps_expr(s, right);
    } else if is_logical_assignment(operator) {
        keeps_logical_assign(s, name, operator, right);
    } else {
        match compound_opcode(operator) {
            Some(op) => {
                let (s, slot) = s.name_slot(name);
                keeps_expr(s.load(slot), right);
            },
            _ => {},
        }
    }
    assert(grows(first, r));
    lemma_grows_all(first, r);
}

pub(crate) proof fn keeps_logical_assign(
    s: CompilerView,
    name: Seq<char>,
    operator: Seq<char>,
    right: Expression,
)
    requires
        is_sound(s),
    ensures
        ({
            let r = gen_logical_assign(s, name, operator, right);
            &&& grows(s, r)
            &&& forall|a: CompilerView| #[trigger] grows(a, s) ==> grows(a, r)
        }),
    decreases right, 8int, 0int, 1int,
{
    broadcast use {
        growth_is_sound,
        step_patch,
        step_emit0,
        step_emit1,
        step_name_slot,
        step_load,
        step_store,
        jump_stays,
    };

    lemma_grows_self(s);
    let first = s;
    let r = gen_logical_assign(s, name, operator, right);
    reveal(logical_assign_rule);
    assert(r == logical_assign_rule(s, name, operator, right));
    let (s, slot) = s.name_slot(name);
    let s = s.load(slot);
    if operator == "&&="@ {
        keeps_expr(s.emit1(Opcode::OpJumpNotTruthy, PLACEHOLDER), right);
    } else {
        let s = if operator == "||="@ {
            s
        } else {
            s.emit0(Opcode::OpIsNullish).emit0(Opcode::OpBang)
        };
        let eval = s.here();
        let s = s.emit1(Opcode::OpJumpNotTruthy, PLACEHOLDER).load(slot);
        let s = s.emit1(Opcode::OpJump, PLACEHOLDER);
        keeps_expr(s.patch(eval, 0, s.here()), right);
    }
    assert(grows(first, r));
    lemma_grows_all(first, r);
}

pub(crate) proof fn keeps_right(s: CompilerView, e: Expression)
    requires
        is_sound(s),
    ensures
        ({
            let r = gen_right(s, e);
            &&& grows(s, r)
            &&& forall|a: CompilerView| #[trigger] grows(a, s) ==> grows(a, r)
        }),
    decreases e, 2int, 0int, 1int,
{
    broadcast use {growth_is_sound, step_push_int};

    lemma_grows_self(s);
    let first = s;
    let r = gen_right(s, e);
    reveal(right_rule);
    assert(r == right_rule(s, e));
    match e {
        Expression::Assign { right, .. } => keeps_expr(s, *right),
        _ => {},
    }
    assert(grows(first, r));
    lemma_grows_all(first, r);
}

pub(crate) proof fn keeps_new_value(s: CompilerView, e: Expression, slot: Slot, op: Option<Opcode>)
    requires
        is_sound(s),
    ensures
        ({
            let r = gen_new_value(s, e, slot, op);
            &&& grows(s, r)
            &&& forall|a: CompilerView| #[trigger] grows(a, s) ==> grows(a, r)
        }),
    decreases e, 3int, 0int, 1int,
{
    broadcast use {growth_is_sound, step_emit0, step_load};

    lemma_grows_self(s);
    let first = s;
    let r = gen_new_value(s, e, slot, op);
    reveal(new_value_rule);
    assert(r == new_value_rule(s, e, slot, op));
    match (op, index_target(e)) {
        (Some(op), Some((_, index))) => {
            keeps_expr(s.load(slot), index);
            let s = gen_expr(s.load(slot), index).emit0(Opcode::OpIndex);
            keeps_right(s, e);
        },
        _ => keeps_right(s, e),
    }
    assert(grows(first, r));
    lemma_grows_all(first, r);
}

pub(crate) proof fn keeps_element_store(
    s: CompilerView,
    e: Expression,
    slot: Slot,
    op: Option<Opcode>,
    prefix: Seq<char>,
)
    requires
        is_sound(s),
    ensures
        ({
            let r = gen_element_store(s, e, slot, op, prefix);
            &&& grows(s, r)
            &&& forall|a: CompilerView| #[trigger] grows(a, s) ==> grows(a, r)
        }),
    decreases e, 4int, 0int, 1int,
{
    broadcast use {
        growth_is_sound,
        step_emit0,
        step_after_temp,
        step_load,
        step_store,
        step_assign_top,
        step_push_name,
    };

    lemma_grows_self(s);
    let first = s;
    let r = gen_element_store(s, e, slot, op, prefix);
    reveal(element_store_rule);
    assert(r == element_store_rule(s, e, slot, op, prefix));
    match index_target(e) {
        Some((_, index)) => {
            keeps_new_value(s, e, slot, op);
            let s = gen_new_value(s, e, slot, op);
            let held = s.temp(prefix);
            let s = s.after_temp().assign_top(held).load(slot);
            keeps_expr(s, index);
            let s = gen_expr(s, index).push_name(held).emit0(Opcode::OpSetIndex);
            keeps_expr(s.store(slot).load(slot), index);
        },
        _ => {},
    }
    assert(grows(first, r));
    lemma_grows_all(first, r);
}

pub(crate) proof fn keeps_held_store(
    s: CompilerView,
    e: Expression,
    slot: Option<Slot>,
    op: Option<Opcode>,
    keeps_old: bool,
)
    requires
        is_sound(s),
    ensures
        ({
            let r = gen_held_store(s, e, slot, op, keeps_old);
            &&& grows(s, r)
            &&& forall|a: CompilerView| #[trigger] grows(a, s) ==> grows(a, r)
        }),
    decreases e, 4int, 0int, 1int,
{
    broadcast use {
        growth_is_sound,
        step_emit0,
        step_after_temp,
        step_store,
        step_assign_top,
        step_push_name,
    };

    lemma_grows_self(s);
    let first = s;
    let r = gen_held_store(s, e, slot, op, keeps_old);
    reveal(held_store_rule);
    assert(r == held_store_rule(s, e, slot, op, keeps_old));
    match index_target(e) {
        Some((object, index)) => {
            keeps_expr(s, object);
            let s = gen_expr(s, object);
            let o = s.temp("obj_assign"@);
            keeps_expr(s.after_temp().assign_top(o), index);
            let s = gen_expr(s.after_temp().assign_top(o), index);
            let k = s.temp("key_assign"@);
            let s = s.after_temp().assign_top(k);
            match op {
                Some(op) => {
                    let s = s.push_name(o).push_name(k).emit0(Opcode::OpIndex);
                    let old = s.temp("postfix_old"@);
                    let s = if keeps_old {
                        s.after_temp().assign_top(old).push_name(old)
                    } else {
                        s
                    };
                    keeps_right(s, e);
                },
                None => keeps_right(s, e),
            }
        },
        _ => {},
    }
    assert(grows(first, r));
    lemma_grows_all(first, r);
}

pub(crate) proof fn keeps_index_assign(s: CompilerView, e: Expression, operator: Seq<char>)
    requires
        is_sound(s),
    ensures
        ({
            let r = gen_index_assign(s, e, operator);
            &&& grows(s, r)
            &&& forall|a: CompilerView| #[trigger] grows(a, s) ==> grows(a, r)
        }),
    decreases e, 5int, 0int, 1int,
{
    broadcast use {
        growth_is_sound,
        step_emit,
        step_fail,
        step_after_cache_slot,
        step_name_slot,
        step_add_string,
    };

    lemma_grows_self(s);
    let first = s;
    let r = gen_index_assign(s, e, operator);
    reveal(index_assign_rule);
    assert(r == index_assign_rule(s, e, operator));
    match index_target(e) {
        Some((object, index)) => {
            if !(operator != "="@ && compound_opcode(operator) is None) {
                let op = compound_opcode(operator);
                match object {
                    Expression::Identifier(name) => {
                        let (s, slot) = s.name_slot(name@);
                        match index {
                            Expression::String(prop) => {
                                if operator == "="@ {
                                    let (s, _) = s.add_string(prop@);
                                    keeps_right(s.after_cache_slot(), e);
                                } else {
                                    keeps_element_store(s, e, slot, op, "idx_assign"@);
                                }
                            },
                            _ => {
                                if is_plain_key(index) {
                                    keeps_element_store(s, e, slot, op, "idx_assign"@);
                                } else {
                                    keeps_held_store(s, e, Some(slot), op, false);
                                }
                            },
                        }
                    },
                    Expression::This => {
                        if is_plain_key(index) {
                            keeps_element_store(s, e, Slot::Local(0), op, "this_assign"@);
                        } else {
                            keeps_held_store(s, e, Some(Slot::Local(0)), op, false);
                        }
                    },
                    _ => keeps_held_store(s, e, None, op, false),
                }
            }
        },
        _ => {},
    }
    assert(grows(first, r));
    lemma_grows_all(first, r);
}

pub(crate) proof fn keeps_update(s: CompilerView, e: Expression)
    requires
        is_sound(s),
    ensures
        ({
            let r = gen_update(s, e);
            &&& grows(s, r)
            &&& forall|a: CompilerView| #[trigger] grows(a, s) ==> grows(a, r)
        }),
    decreases e, 5int, 2int, 1int,
{
    broadcast use {
        growth_is_sound,
        step_emit0,
        step_fail,
        step_after_temp,
        step_name_slot,
        step_assign_top,
        step_push_name,
    };

    lemma_grows_self(s);
    let first = s;
    let r = gen_update(s, e);
    reveal(update_rule);
    assert(r == update_rule(s, e));
    match e {
        Expression::Update { target, operator, prefix } => {
            let assign = if operator@ == "++"@ {
                "+="@
            } else {
                "-="@
            };
            if operator@ != "++"@ && operator@ != "--"@ {
            } else if prefix {
                keeps_step(s, e, assign);
            } else if may_repeat(*target) {
                keeps_expr(s, *target);
                let s = gen_expr(s, *target);
                let old = s.temp("postfix_old"@);
                let s = s.after_temp().assign_top(old);
                keeps_step(s, e, assign);
            } else {
                let op = compound_opcode(assign);
                match *target {
                    Expression::Index { left, .. } => {
                        match *left {
                            Expression::Identifier(name) => {
                                let (s, slot) = s.name_slot(name@);
                                keeps_held_store(s, e, Some(slot), op, true);
                            },
                            Expression::This => {
                                keeps_held_store(s, e, Some(Slot::Local(0)), op, true);
                            },
                            _ => keeps_held_store(s, e, None, op, true),
                        }
                    },
                    _ => {},
                }
            }
        },
        _ => {},
    }
    assert(grows(first, r));
    lemma_grows_all(first, r);
}

pub(crate) proof fn keeps_step(s: CompilerView, e: Expression, assign: Seq<char>)
    requires
        is_sound(s),
    ensures
        ({
            let r = gen_step(s, e, assign);
            &&& grows(s, r)
            &&& forall|a: CompilerView| #[trigger] grows(a, s) ==> grows(a, r)
        }),
    decreases e, 5int, 1int, 1int,
{
    broadcast use {growth_is_sound, step_fail, step_step_name};

    lemma_grows_self(s);
    let first = s;
    let r = gen_step(s, e, assign);
    reveal(step_rule);
    assert(r == step_rule(s, e, assign));
    match e {
        Expression::Update { target, .. } => {
            match *target {
                Expression::Index { .. } => keeps_index_assign(s, e, assign),
                _ => {},
            }
        },
        _ => {},
    }
    assert(grows(first, r));
    lemma_grows_all(first, r);
}

pub(crate) proof fn keeps_destructure(s: CompilerView, target: Expression)
    requires
        is_sound(s),
    ensures
        ({
            let r = gen_destructure(s, target);
            &&& grows(s, r)
            &&& forall|a: CompilerView| #[trigger] grows(a, s) ==> grows(a, r)
        }),
    decreases target, 8int, 0int, 1int,
{
    broadcast use {growth_is_sound, step_after_temp, step_assign_top, step_push_name};

    lemma_grows_self(s);
    let first = s;
    let r = gen_destructure(s, target);
    reveal(destructure_rule);
    assert(r == destructure_rule(s, target));
    match target {
        Expression::Array(items) => {
            let source = s.temp("arr_assign"@);
            let s = s.after_temp().assign_top(source);
            keeps_element_targets(s, items, source, 0);
        },
        Expression::Hash(entries) => {
            let source = s.temp("obj_assign"@);
            let s = s.after_temp().assign_top(source);
            keeps_property_targets(s, entries, source, 0);
        },
        _ => {},
    }
    assert(grows(first, r));
    lemma_grows_all(first, r);
}

pub(crate) proof fn keeps_nested(s: CompilerView, target: Expression, prefix: Seq<char>)
    requires
        is_sound(s),
    ensures
        ({
            let r = gen_nested(s, target, prefix);
            &&& grows(s, r)
            &&& forall|a: CompilerView| #[trigger] grows(a, s) ==> grows(a, r)
        }),
    decreases target, 9int, 0int, 1int,
{
    broadcast use {growth_is_sound, step_emit0, step_after_temp, step_assign_top, step_push_name};

    lemma_grows_self(s);
    let first = s;
    let r = gen_nested(s, target, prefix);
    reveal(nested_rule);
    assert(r == nested_rule(s, target, prefix));
    let held = s.temp(prefix);
    let s = s.after_temp().assign_top(held).push_name(held);
    keeps_destructure(s, target);
    assert(grows(first, r));
    lemma_grows_all(first, r);
}

pub(crate) proof fn keeps_element_targets(
    s: CompilerView,
    items: Vec<Expression>,
    source: Seq<char>,
    i: int,
)
    requires
        is_sound(s),
    ensures
        ({
            let r = gen_element_targets(s, items, source, i);
            &&& grows(s, r)
            &&& forall|a: CompilerView| #[trigger] grows(a, s) ==> grows(a, r)
        }),
    decreases items, 1int, items@.len() - i, 1int,
{
    broadcast use {
        growth_is_sound,
        step_fail,
        step_assign_target,
        step_push_element,
        step_push_rest,
    };

    lemma_grows_self(s);
    let first = s;
    let r = gen_element_targets(s, items, source, i);
    reveal(element_targets_rule);
    assert(r == element_targets_rule(s, items, source, i));
    if 0 <= i < items@.len() {
        match items@[i] {
            Expression::Assign { left, operator, right } => {
                if operator@ == "="@ {
                    match *left {
                        Expression::Identifier(name) => {
                            keeps_default(s.push_element(source, i), *right);
                        },
                        Expression::Array(_) | Expression::Hash(_) => {
                            keeps_default(s.push_element(source, i), *right);
                            keeps_nested(
                                gen_default(s.push_element(source, i), *right),
                                *left,
                                "arr_nested"@,
                            );
                        },
                        _ => {},
                    }
                }
            },
            Expression::Array(_) | Expression::Hash(_) => {
                keeps_nested(s.push_element(source, i), items@[i], "arr_nested"@);
            },
            _ => {},
        }
        let s = match items@[i] {
            Expression::Spread { value } => if i + 1 != items@.len() {
                s.fail("array rest element in assignment must be last"@)
            } else {
                match *value {
                    Expression::Identifier(name) => s.push_rest(source, i).assign_target(name@),
                    Expression::Assign { .. } => s.fail(
                        "rest element in array binding cannot have default"@,
                    ),
                    _ => s.fail("array rest assignment requires identifier target"@),
                }
            },
            Expression::Identifier(name) => s.push_element(source, i).assign_target(name@),
            Expression::Assign { left, operator, right } => if operator@ == "="@ {
                match *left {
                    Expression::Identifier(name) => gen_default(
                        s.push_element(source, i),
                        *right,
                    ).assign_target(name@),
                    Expression::Array(_) | Expression::Hash(_) => gen_nested(
                        gen_default(s.push_element(source, i), *right),
                        *left,
                        "arr_nested"@,
                    ),
                    _ => s.fail(
                        "array destructuring default supports identifier or nested pattern targets only"@,
                    ),
                }
            } else {
                s.fail(
                    "array destructuring assignment supports identifier or nested pattern targets only"@,
                )
            },
            Expression::Array(_) | Expression::Hash(_) => gen_nested(
                s.push_element(source, i),
                items@[i],
                "arr_nested"@,
            ),
            _ => s.fail(
                "array destructuring assignment supports identifier or nested pattern targets only"@,
            ),
        };
        keeps_element_targets(s, items, source, i + 1);
    }
    assert(grows(first, r));
    lemma_grows_all(first, r);
}

pub(crate) proof fn keeps_entry_keys(s: CompilerView, entries: Vec<HashEntry>, i: int)
    requires
        is_sound(s),
    ensures
        ({
            let r = gen_entry_keys(s, entries, i);
            &&& grows(s, r)
            &&& forall|a: CompilerView| #[trigger] grows(a, s) ==> grows(a, r)
        }),
    decreases entries, 1int, entries@.len() - i, 1int,
{
    broadcast use growth_is_sound;

    lemma_grows_self(s);
    let first = s;
    let r = gen_entry_keys(s, entries, i);
    reveal(entry_keys_rule);
    assert(r == entry_keys_rule(s, entries, i));
    if 0 <= i < entries@.len() {
        match entries@[i] {
            HashEntry::KeyValue { key, .. } => keeps_expr(s, key),
            HashEntry::Method { key, .. } => keeps_expr(s, key),
            HashEntry::Getter { key, .. } => keeps_expr(s, key),
            HashEntry::Setter { key, .. } => keeps_expr(s, key),
            _ => {},
        }
        let s = match entries@[i] {
            HashEntry::Spread(_) => s,
            HashEntry::KeyValue { key, .. } => gen_expr(s, key),
            HashEntry::Method { key, .. } => gen_expr(s, key),
            HashEntry::Getter { key, .. } => gen_expr(s, key),
            HashEntry::Setter { key, .. } => gen_expr(s, key),
        };
        keeps_entry_keys(s, entries, i + 1);
    }
    assert(grows(first, r));
    lemma_grows_all(first, r);
}

pub(crate) proof fn keeps_property_targets(
    s: CompilerView,
    entries: Vec<HashEntry>,
    source: Seq<char>,
    i: int,
)
    requires
        is_sound(s),
    ensures
        ({
            let r = gen_property_targets(s, entries, source, i);
            &&& grows(s, r)
            &&& forall|a: CompilerView| #[trigger] grows(a, s) ==> grows(a, r)
        }),
    decreases entries, 2int, entries@.len() - i, 1int,
{
    broadcast use {
        growth_is_sound,
        step_emit0,
        step_emit1,
        step_fail,
        step_assign_target,
        step_push_name,
    };

    lemma_grows_self(s);
    let first = s;
    let r = gen_property_targets(s, entries, source, i);
    reveal(property_targets_rule);
    assert(r == property_targets_rule(s, entries, source, i));
    if 0 <= i < entries@.len() {
        match entries@[i] {
            HashEntry::Spread(target) => {
                match target {
                    Expression::Identifier(name) => {
                        keeps_entry_keys(s.push_name(source), entries, 0);
                    },
                    _ => {},
                }
            },
            HashEntry::KeyValue { key, value } => {
                keeps_expr(s.push_name(source), key);
                let s = gen_expr(s.push_name(source), key).emit0(Opcode::OpIndex);
                keeps_property_target(s, value);
            },
            _ => {},
        }
        let s = match entries@[i] {
            HashEntry::Spread(target) => match target {
                Expression::Identifier(name) => gen_entry_keys(
                    s.push_name(source),
                    entries,
                    0,
                ).emit1(
                    Opcode::OpObjectRest,
                    keyed_entries(entries@, entries@.len() as int) as u16,
                ).assign_target(name@),
                _ => s.fail(
                    "object rest destructuring assignment requires identifier target"@,
                ),
            },
            HashEntry::KeyValue { key, value } => {
                let s = gen_expr(s.push_name(source), key).emit0(Opcode::OpIndex);
                gen_property_target(s, value)
            },
            _ => s.fail("methods/getters/setters not valid in destructuring assignment"@),
        };
        keeps_property_targets(s, entries, source, i + 1);
    }
    assert(grows(first, r));
    lemma_grows_all(first, r);
}

pub(crate) proof fn keeps_property_target(s: CompilerView, target: Expression)
    requires
        is_sound(s),
    ensures
        ({
            let r = gen_property_target(s, target);
            &&& grows(s, r)
            &&& forall|a: CompilerView| #[trigger] grows(a, s) ==> grows(a, r)
        }),
    decreases target, 10int, 0int, 1int,
{
    broadcast use {growth_is_sound, step_fail, step_assign_target};

    lemma_grows_self(s);
    let first = s;
    let r = gen_property_target(s, target);
    reveal(property_target_rule);
    assert(r == property_target_rule(s, target));
    match target {
        Expression::Assign { left, operator, right } => {
            if operator@ == "="@ {
                match *left {
                    Expression::Identifier(name) => keeps_default(s, *right),
                    Expression::Array(_) | Expression::Hash(_) => {
                        keeps_default(s, *right);
                        keeps_nested(gen_default(s, *right), *left, "obj_nested"@);
                    },
                    _ => {},
                }
            }
        },
        Expression::Array(_) | Expression::Hash(_) => keeps_nested(s, target, "obj_nested"@),
        _ => {},
    }
    assert(grows(first, r));
    lemma_grows_all(first, r);
}

} // verus!
