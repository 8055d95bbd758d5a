//! Assignment and destructuring in the stack compiler.
use vstd::prelude::*;

use crate::ast::{
    ArrayBindingItem, BindingPattern, BindingTarget, Expression, HashEntry, ObjectBindingItem,
};
use crate::code::Opcode;
use crate::codegen::{
    PLACEHOLDER, Slot, is_const,
};
use crate::compiler::{
    Compiler, compound_op,
};
use crate::object::Object;
use crate::rules::{
    array_items_rule, assign_rule, default_rule, destructure_rule, element_store_rule,
    element_targets_rule, entry_keys_rule, gen_array_items, gen_assign, gen_default,
    gen_destructure, gen_element_store, gen_element_targets, gen_entry_keys, gen_held_store,
    gen_index_assign, gen_item_keys, gen_logical_assign, gen_name_assign, gen_nested, gen_new_value,
    gen_object_items, gen_pattern, gen_property_target, gen_property_targets, gen_right, gen_step,
    gen_target, gen_update, held_store_rule, index_assign_rule, index_target, is_plain_key,
    item_keys_rule, kept_items, keyed_entries, logical_assign_rule, may_repeat, name_assign_rule,
    nested_rule, new_value_rule, object_items_rule, pattern_rule, property_target_rule,
    property_targets_rule, right_rule, step_rule, target_rule, update_rule,
};
use crate::text::{
    concat, concat3, str_eq,
};

verus! {

impl Compiler {
    pub(crate) fn assign_pattern_from_top(&mut self, pattern: &BindingPattern)
        ensures
            final(self)@ == gen_pattern(old(self)@, *pattern),
        decreases *pattern, 4int, 0int,
    {
        proof {
            reveal(pattern_rule);
            assert(gen_pattern(old(self)@, *pattern) == pattern_rule(old(self)@, *pattern));
        }
        let source = self.make_temp_name("destr");
        self.assign_identifier_from_top(source.as_str());
        match pattern {
            BindingPattern::Array(items) => self.assign_array_items(items, source.as_str()),
            BindingPattern::Object(items) => self.assign_object_items(items, source.as_str()),
        }
    }

    pub(crate) fn assign_array_items(&mut self, items: &Vec<ArrayBindingItem>, source: &str)
        ensures
            final(self)@ == gen_array_items(old(self)@, *items, source@, 0),
        decreases *items, 1int, items@.len(),
    {
        proof {
            reveal(array_items_rule);
            assert(gen_array_items(old(self)@, *items, source@, 0) == array_items_rule(old(self)@, *items, source@, 0));
        }
        let mut i: usize = 0;
        while i < items.len()
            invariant
                0 <= i <= items@.len(),
                gen_array_items(self@, *items, source@, i as int) == gen_array_items(
                    old(self)@,
                    *items,
                    source@,
                    0,
                ),
            decreases items@.len() - i,
        {
            proof {
                reveal(array_items_rule);
                assert(gen_array_items(self@, *items, source@, i as int) == array_items_rule(self@, *items, source@, i as int));
            }
            assert(decreases_to!(*items => items@[i as int]));
            match &items[i] {
                ArrayBindingItem::Hole => {},
                ArrayBindingItem::Binding { target, default_value } => {
                    self.push_element(source, i);
                    if let Some(d) = default_value {
                        self.apply_destructuring_default(d);
                    }
                    self.assign_binding_target_from_top(target);
                },
                ArrayBindingItem::Rest { name } => {
                    self.compile_array_rest_from(source, i);
                    self.assign_identifier_from_top(name.as_str());
                },
            }
            i += 1;
        }
        proof {
            assert(gen_array_items(self@, *items, source@, i as int) == array_items_rule(self@, *items, source@, i as int));
        }
    }

    pub(crate) fn assign_object_items(&mut self, items: &Vec<ObjectBindingItem>, source: &str)
        ensures
            final(self)@ == gen_object_items(old(self)@, *items, source@, 0),
        decreases *items, 2int, items@.len(),
    {
        proof {
            reveal(object_items_rule);
            assert(gen_object_items(old(self)@, *items, source@, 0) == object_items_rule(old(self)@, *items, source@, 0));
        }
        let mut i: usize = 0;
        while i < items.len()
            invariant
                0 <= i <= items@.len(),
                gen_object_items(self@, *items, source@, i as int) == gen_object_items(
                    old(self)@,
                    *items,
                    source@,
                    0,
                ),
            decreases items@.len() - i,
        {
            proof {
                reveal(object_items_rule);
                assert(gen_object_items(self@, *items, source@, i as int) == object_items_rule(self@, *items, source@, i as int));
            }
            assert(decreases_to!(*items => items@[i as int]));
            let item = &items[i];
            if item.is_rest {
                self.compile_identifier(source);
                let count: u16 = self.compile_item_keys(items);
                self.emit1(Opcode::OpObjectRest, count);
                match &item.target {
                    BindingTarget::Identifier(name) => {
                        self.assign_identifier_from_top(name.as_str());
                    },
                    BindingTarget::Pattern(_) => {
                        self.fail("object rest target must be identifier".to_owned());
                    },
                }
            } else {
                self.compile_identifier(source);
                self.compile_expression(&item.key);
                self.emit0(Opcode::OpIndex);
                if let Some(d) = &item.default_value {
                    self.apply_destructuring_default(d);
                }
                self.assign_binding_target_from_top(&item.target);
            }
            i += 1;
        }
        proof {
            assert(gen_object_items(self@, *items, source@, i as int) == object_items_rule(self@, *items, source@, i as int));
        }
    }

    /// Push the keys of the items that are not the rest. Returns their number.
    pub(crate) fn compile_item_keys(&mut self, items: &Vec<ObjectBindingItem>) -> (r: u16)
        ensures
            (final(self)@, r) == (
                    gen_item_keys(old(self)@, *items, 0),
                    kept_items(items@, items@.len() as int) as u16,
                ),
        decreases *items, 1int, items@.len(),
    {
        proof {
            reveal(item_keys_rule);
            assert(gen_item_keys(old(self)@, *items, 0) == item_keys_rule(old(self)@, *items, 0));
        }
        let mut count: usize = 0;
        let mut i: usize = 0;
        while i < items.len()
            invariant
                0 <= i <= items@.len(),
                count == kept_items(items@, i as int),
                count <= i,
                gen_item_keys(self@, *items, i as int) == gen_item_keys(old(self)@, *items, 0),
            decreases items@.len() - i,
        {
            proof {
                reveal(item_keys_rule);
                assert(gen_item_keys(self@, *items, i as int) == item_keys_rule(self@, *items, i as int));
            }
            assert(decreases_to!(*items => items@[i as int]));
            if !items[i].is_rest {
                self.compile_expression(&items[i].key);
                count += 1;
            }
            i += 1;
        }
        proof {
            assert(gen_item_keys(self@, *items, i as int) == item_keys_rule(self@, *items, i as int));
        }
        count as u16
    }

    pub(crate) fn assign_binding_target_from_top(&mut self, target: &BindingTarget)
        ensures
            final(self)@ == gen_target(old(self)@, *target),
        decreases *target, 4int, 0int,
    {
        proof {
            reveal(target_rule);
            assert(gen_target(old(self)@, *target) == target_rule(old(self)@, *target));
        }
        match target {
            BindingTarget::Identifier(name) => self.assign_identifier_from_top(name.as_str()),
            BindingTarget::Pattern(p) => self.assign_pattern_from_top(p),
        }
    }

    pub(crate) fn apply_destructuring_default(&mut self, default: &Expression)
        ensures
            final(self)@ == gen_default(old(self)@, *default),
        decreases *default, 8int, 0int,
    {
        proof {
            reveal(default_rule);
            assert(gen_default(old(self)@, *default) == default_rule(old(self)@, *default));
        }
        let held_name = self.make_temp_name("destr_val");
        let held = held_name.as_str();
        self.assign_identifier_from_top(held);
        self.compile_identifier(held);
        self.emit0(Opcode::OpTypeof);
        self.push_string("undefined");
        self.emit0(Opcode::OpEqual);
        let skip: usize = self.emit1(Opcode::OpJumpNotTruthy, PLACEHOLDER);
        self.compile_expression(default);
        self.assign_identifier_from_top(held);
        let here: usize = self.here();
        self.change_operand(skip, here);
        self.compile_identifier(held)
    }

    pub(crate) fn compile_assignment_expression(&mut self, e: &Expression)
        ensures
            final(self)@ == gen_assign(old(self)@, *e),
        decreases *e, 5int, 1int,
    {
        proof {
            reveal(assign_rule);
            assert(gen_assign(old(self)@, *e) == assign_rule(old(self)@, *e));
        }
        match e {
            Expression::Assign { left, operator, right } => match &**left {
                Expression::Identifier(name) => self.assign_name(
                    name.as_str(),
                    operator.as_str(),
                    right,
                ),
                Expression::Index { .. } => self.assign_index(e, operator.as_str()),
                Expression::Array(_) => {
                    if !str_eq(operator.as_str(), "=") {
                        self.fail("only '=' supported for array destructuring assignment".to_owned());
                return ;
                    }
                    self.compile_expression(right);
                    self.destructure_top(left)
                },
                Expression::Hash(_) => {
                    if !str_eq(operator.as_str(), "=") {
                        self.fail("only '=' supported for object destructuring assignment".to_owned());
                return ;
                    }
                    self.compile_expression(right);
                    self.destructure_top(left)
                },
                _ => self.fail("invalid assignment target".to_owned()),
            },
            _ => {},
        }
    }

    pub(crate) fn assign_name(&mut self, name: &str, operator: &str, right: &Expression)
        ensures
            final(self)@ == gen_name_assign(old(self)@, name@, operator@, *right),
        decreases *right, 9int, 0int,
    {
        proof {
            reveal(name_assign_rule);
            assert(gen_name_assign(old(self)@, name@, operator@, *right) == name_assign_rule(old(self)@, name@, operator@, *right));
        }
        if self.is_const(name) {
            self.fail(concat3("Assignment to constant variable '", name, "'"));
                return ;
        }
        if str_eq(operator, "=") {
            self.compile_expression(right);
            return self.set_name(name);
        }
        if str_eq(operator, "&&=") || str_eq(operator, "||=") || str_eq(operator, "??=") {
            return self.compile_logical_assignment_identifier(name, operator, right);
        }
        match compound_op(operator) {
            Some(op) => {
                let slot = self.ensure_name_slot(name);
                self.load(slot);
                self.compile_expression(right);
                self.emit0(op);
                self.store(slot);
                self.load(slot);
            },
            None => self.fail(concat("unsupported assignment operator ", operator)),
        }
    }

    pub(crate) fn compile_logical_assignment_identifier(
        &mut self,
        name: &str,
        operator: &str,
        right: &Expression,
    )
        ensures
            final(self)@ == gen_logical_assign(old(self)@, name@, operator@, *right),
        decreases *right, 8int, 0int,
    {
        proof {
            reveal(logical_assign_rule);
            assert(gen_logical_assign(old(self)@, name@, operator@, *right) == logical_assign_rule(old(self)@, name@, operator@, *right));
        }
        let slot = self.ensure_name_slot(name);
        self.load(slot);
        if str_eq(operator, "&&=") {
            let keep: usize = self.emit1(Opcode::OpJumpNotTruthy, PLACEHOLDER);
            self.compile_expression(right);
            self.store(slot);
            self.load(slot);
            let end: usize = self.emit1(Opcode::OpJump, PLACEHOLDER);
            let kept: usize = self.here();
            self.change_operand(keep, kept);
            self.load(slot);
            let here: usize = self.here();
            self.change_operand(end, here);
        } else {
            if !str_eq(operator, "||=") {
                self.emit0(Opcode::OpIsNullish);
                self.emit0(Opcode::OpBang);
            }
            let eval: usize = self.emit1(Opcode::OpJumpNotTruthy, PLACEHOLDER);
            self.load(slot);
            let end: usize = self.emit1(Opcode::OpJump, PLACEHOLDER);
            let right_start: usize = self.here();
            self.change_operand(eval, right_start);
            self.compile_expression(right);
            self.store(slot);
            self.load(slot);
            let here: usize = self.here();
            self.change_operand(end, here);
        }
    }

    pub(crate) fn compile_right(&mut self, e: &Expression)
        ensures
            final(self)@ == gen_right(old(self)@, *e),
        decreases *e, 2int, 0int,
    {
        proof {
            reveal(right_rule);
            assert(gen_right(old(self)@, *e) == right_rule(old(self)@, *e));
        }
        match e {
            Expression::Assign { right, .. } => self.compile_expression(right),
            _ => {
                self.push_int(1);
            },
        }
    }

    pub(crate) fn compile_new_value(&mut self, e: &Expression, slot: Slot, op: Option<Opcode>)
        ensures
            final(self)@ == gen_new_value(old(self)@, *e, slot, op),
        decreases *e, 3int, 0int,
    {
        proof {
            reveal(new_value_rule);
            assert(gen_new_value(old(self)@, *e, slot, op) == new_value_rule(old(self)@, *e, slot, op));
        }
        match (op, find_index_target(e)) {
            (Some(op), Some((_, index))) => {
                self.load(slot);
                self.compile_expression(index);
                self.emit0(Opcode::OpIndex);
                self.compile_right(e);
                self.emit0(op);
            },
            _ => self.compile_right(e),
        }
    }

    pub(crate) fn store_element(
        &mut self,
        e: &Expression,
        slot: Slot,
        op: Option<Opcode>,
        prefix: &str,
    )
        ensures
            final(self)@ == gen_element_store(old(self)@, *e, slot, op, prefix@),
        decreases *e, 4int, 0int,
    {
        proof {
            reveal(element_store_rule);
            assert(gen_element_store(old(self)@, *e, slot, op, prefix@) == element_store_rule(old(self)@, *e, slot, op, prefix@));
        }
        match find_index_target(e) {
            None => {},
            Some((_, index)) => {
                self.compile_new_value(e, slot, op);
                let held = self.make_temp_name(prefix);
                self.assign_identifier_from_top(held.as_str());
                self.load(slot);
                self.compile_expression(index);
                self.compile_identifier(held.as_str());
                self.emit0(Opcode::OpSetIndex);
                self.store(slot);
                self.load(slot);
                self.compile_expression(index);
                self.emit0(Opcode::OpIndex);
            },
        }
    }

    pub(crate) fn assign_index(&mut self, e: &Expression, operator: &str)
        ensures
            final(self)@ == gen_index_assign(old(self)@, *e, operator@),
        decreases *e, 5int, 0int,
    {
        proof {
            reveal(index_assign_rule);
            assert(gen_index_assign(old(self)@, *e, operator@) == index_assign_rule(old(self)@, *e, operator@));
        }
        let (object, index) = match find_index_target(e) {
            Some(target) => target,
            None => {
                return ;
            },
        };
        let plain: bool = str_eq(operator, "=");
        let op = compound_op(operator);
        if !plain && op.is_none() {
            self.fail(concat3("unsupported assignment operator ", operator, " for index target"));
                return ;
        }
        match object {
            Expression::Identifier(name) => {
                let slot = self.ensure_name_slot(name.as_str());
                if plain {
                    if let Expression::String(prop) = index {
                        let idx: u16 = self.add_constant_string(prop.as_str());
                        let cache: u16 = self.take_cache_slot();
                        self.compile_right(e);
                        match slot {
                            Slot::Local(n) => {
                                self.emit3(Opcode::OpSetLocalProperty, n, idx, cache);
                            },
                            Slot::Global(n) => {
                                self.emit3(Opcode::OpSetGlobalProperty, n, idx, cache);
                            },
                        }
                        return ;
                    }
                }
                if test_plain_key(index) {
                    self.store_element(e, slot, op, "idx_assign")
                } else {
                    self.store_held(e, Some(slot), op, false)
                }
            },
            Expression::This => if test_plain_key(index) {
                self.store_element(e, Slot::Local(0), op, "this_assign")
            } else {
                self.store_held(e, Some(Slot::Local(0)), op, false)
            },
            _ => self.store_held(e, None, op, false),
        }
    }

    /// Store to an element whose object and key are evaluated once, by way of
    /// hidden variables.
    fn store_held(
        &mut self,
        e: &Expression,
        slot: Option<Slot>,
        op: Option<Opcode>,
        keeps_old: bool,
    )
        ensures
            final(self)@ == gen_held_store(old(self)@, *e, slot, op, keeps_old),
        decreases *e, 4int, 0int,
    {
        proof {
            reveal(held_store_rule);
            assert(gen_held_store(
                old(self)@,
                *e,
                slot,
                op,
                keeps_old,
            ) == held_store_rule(
                old(self)@,
                *e,
                slot,
                op,
                keeps_old,
            ));
        }
        match find_index_target(e) {
            None => {},
            Some((object, index)) => {
                self.compile_expression(object);
                let o = self.make_temp_name("obj_assign");
                self.assign_identifier_from_top(o.as_str());
                self.compile_expression(index);
                let k = self.make_temp_name("key_assign");
                self.assign_identifier_from_top(k.as_str());
                let mut old_name = String::new();
                match op {
                    Some(op) => {
                        self.compile_identifier(o.as_str());
                        self.compile_identifier(k.as_str());
                        self.emit0(Opcode::OpIndex);
                        if keeps_old {
                            old_name = self.make_temp_name("postfix_old");
                            self.assign_identifier_from_top(old_name.as_str());
                            self.compile_identifier(old_name.as_str());
                        }
                        self.compile_right(e);
                        self.emit0(op);
                    },
                    None => self.compile_right(e),
                }
                let held = self.make_temp_name("idx_assign");
                self.assign_identifier_from_top(held.as_str());
                self.compile_identifier(o.as_str());
                self.compile_identifier(k.as_str());
                self.compile_identifier(held.as_str());
                self.emit0(Opcode::OpSetIndex);
                match slot {
                    Some(slot) => self.store(slot),
                    None => {
                        self.emit0(Opcode::OpPop);
                    },
                }
                if keeps_old {
                    self.compile_identifier(old_name.as_str())
                } else {
                    self.compile_identifier(held.as_str())
                }
            },
        }
    }

    pub(crate) fn compile_update_expression(&mut self, e: &Expression)
        ensures
            final(self)@ == gen_update(old(self)@, *e),
        decreases *e, 5int, 2int,
    {
        proof {
            reveal(update_rule);
            assert(gen_update(old(self)@, *e) == update_rule(old(self)@, *e));
        }
        match e {
            Expression::Update { target, operator, prefix } => {
                let assign = if str_eq(operator.as_str(), "++") {
                    "+="
                } else if str_eq(operator.as_str(), "--") {
                    "-="
                } else {
                    self.fail(concat("unsupported update operator ", operator.as_str()));
                return ;
                };
                if *prefix {
                    self.step_target(e, assign)
                } else if test_may_repeat(target) {
                    self.compile_expression(target);
                    let old = self.make_temp_name("postfix_old");
                    self.assign_identifier_from_top(old.as_str());
                    self.step_target(e, assign);
                    self.emit0(Opcode::OpPop);
                    self.compile_identifier(old.as_str())
                } else {
                    let op = compound_op(assign);
                    match &**target {
                        Expression::Index { left, .. } => match &**left {
                            Expression::Identifier(name) => {
                                let slot = self.ensure_name_slot(name.as_str());
                                self.store_held(e, Some(slot), op, true)
                            },
                            Expression::This => self.store_held(
                                e,
                                Some(Slot::Local(0)),
                                op,
                                true,
                            ),
                            _ => self.store_held(e, None, op, true),
                        },
                        _ => {},
                    }
                }
            },
            _ => {},
        }
    }

    pub(crate) fn step_target(&mut self, e: &Expression, assign: &str)
        ensures
            final(self)@ == gen_step(old(self)@, *e, assign@),
        decreases *e, 5int, 1int,
    {
        proof {
            reveal(step_rule);
            assert(gen_step(old(self)@, *e, assign@) == step_rule(old(self)@, *e, assign@));
        }
        match e {
            Expression::Update { target, .. } => match &**target {
                Expression::Identifier(name) => self.step_name(name.as_str(), assign),
                Expression::Index { .. } => self.assign_index(e, assign),
                Expression::Array(_) => self.fail("only '=' supported for array destructuring assignment".to_owned()),
                Expression::Hash(_) => self.fail("only '=' supported for object destructuring assignment".to_owned()),
                _ => self.fail("invalid assignment target".to_owned()),
            },
            _ => {},
        }
    }

    pub(crate) fn destructure_top(&mut self, target: &Expression)
        ensures
            final(self)@ == gen_destructure(old(self)@, *target),
        decreases *target, 8int, 0int,
    {
        proof {
            reveal(destructure_rule);
            assert(gen_destructure(old(self)@, *target) == destructure_rule(old(self)@, *target));
        }
        match target {
            Expression::Array(items) => {
                let source = self.make_temp_name("arr_assign");
                self.assign_identifier_from_top(source.as_str());
                self.assign_element_targets(items, source.as_str());
                self.compile_identifier(source.as_str())
            },
            Expression::Hash(entries) => {
                let source = self.make_temp_name("obj_assign");
                self.assign_identifier_from_top(source.as_str());
                self.assign_property_targets(entries, source.as_str());
                self.compile_identifier(source.as_str())
            },
            _ => {},
        }
    }

    pub(crate) fn destructure_nested(&mut self, target: &Expression, prefix: &str)
        ensures
            final(self)@ == gen_nested(old(self)@, *target, prefix@),
        decreases *target, 9int, 0int,
    {
        proof {
            reveal(nested_rule);
            assert(gen_nested(old(self)@, *target, prefix@) == nested_rule(old(self)@, *target, prefix@));
        }
        let held = self.make_temp_name(prefix);
        self.assign_identifier_from_top(held.as_str());
        self.compile_identifier(held.as_str());
        self.destructure_top(target);
        self.emit0(Opcode::OpPop);
    }

    pub(crate) fn assign_element_targets(&mut self, items: &Vec<Expression>, source: &str)
        ensures
            final(self)@ == gen_element_targets(old(self)@, *items, source@, 0),
        decreases *items, 1int, items@.len(),
    {
        proof {
            reveal(element_targets_rule);
            assert(gen_element_targets(old(self)@, *items, source@, 0) == element_targets_rule(old(self)@, *items, source@, 0));
        }
        let mut i: usize = 0;
        while i < items.len()
            invariant
                0 <= i <= items@.len(),
                gen_element_targets(self@, *items, source@, i as int) == gen_element_targets(
                    old(self)@,
                    *items,
                    source@,
                    0,
                ),
            decreases items@.len() - i,
        {
            proof {
                reveal(element_targets_rule);
                assert(gen_element_targets(self@, *items, source@, i as int) == element_targets_rule(self@, *items, source@, i as int));
            }
            assert(decreases_to!(*items => items@[i as int]));
            match &items[i] {
                Expression::Spread { value } => {
                    if i + 1 != items.len() {
                        self.fail("array rest element in assignment must be last".to_owned());
                    } else {
                    match &**value {
                        Expression::Identifier(name) => {
                            self.compile_array_rest_from(source, i);
                            self.assign_target_from_top(name.as_str());
                        },
                        Expression::Assign { .. } => {
                            self.fail("rest element in array binding cannot have default".to_owned());
                        },
                        _ => {
                            self.fail("array rest assignment requires identifier target".to_owned());
                        },
                    }
                    }
                },
                Expression::Identifier(name) => {
                    self.push_element(source, i);
                    self.assign_target_from_top(name.as_str());
                },
                Expression::Assign { left, operator, right } => {
                    if !str_eq(operator.as_str(), "=") {
                        self.fail("array destructuring assignment supports identifier or nested pattern targets only".to_owned());
                    } else {
                    match &**left {
                        Expression::Identifier(name) => {
                            self.push_element(source, i);
                            self.apply_destructuring_default(right);
                            self.assign_target_from_top(name.as_str());
                        },
                        Expression::Array(_) | Expression::Hash(_) => {
                            self.push_element(source, i);
                            self.apply_destructuring_default(right);
                            self.destructure_nested(left, "arr_nested");
                        },
                        _ => {
                            self.fail("array destructuring default supports identifier or nested pattern targets only".to_owned());
                        },
                    }
                    }
                },
                Expression::Array(_) | Expression::Hash(_) => {
                    self.push_element(source, i);
                    self.destructure_nested(&items[i], "arr_nested");
                },
                _ => {
                    self.fail("array destructuring assignment supports identifier or nested pattern targets only".to_owned());
                },
            }
            i += 1;
        }
        proof {
            assert(gen_element_targets(self@, *items, source@, i as int) == element_targets_rule(self@, *items, source@, i as int));
        }
    }

    pub(crate) fn compile_entry_keys(&mut self, entries: &Vec<HashEntry>) -> (r: u16)
        ensures
            (final(self)@, r) == (
                    gen_entry_keys(old(self)@, *entries, 0),
                    keyed_entries(entries@, entries@.len() as int) as u16,
                ),
        decreases *entries, 1int, entries@.len(),
    {
        proof {
            reveal(entry_keys_rule);
            assert(gen_entry_keys(old(self)@, *entries, 0) == entry_keys_rule(old(self)@, *entries, 0));
        }
        let mut count: usize = 0;
        let mut i: usize = 0;
        while i < entries.len()
            invariant
                0 <= i <= entries@.len(),
                count == keyed_entries(entries@, i as int),
                count <= i,
                gen_entry_keys(self@, *entries, i as int) == gen_entry_keys(
                    old(self)@,
                    *entries,
                    0,
                ),
            decreases entries@.len() - i,
        {
            proof {
                reveal(entry_keys_rule);
                assert(gen_entry_keys(self@, *entries, i as int) == entry_keys_rule(self@, *entries, i as int));
            }
            assert(decreases_to!(*entries => entries@[i as int]));
            match &entries[i] {
                HashEntry::Spread(_) => {},
                HashEntry::KeyValue { key, .. } => {
                    self.compile_expression(key);
                    count += 1;
                },
                HashEntry::Method { key, .. } => {
                    self.compile_expression(key);
                    count += 1;
                },
                HashEntry::Getter { key, .. } => {
                    self.compile_expression(key);
                    count += 1;
                },
                HashEntry::Setter { key, .. } => {
                    self.compile_expression(key);
                    count += 1;
                },
            }
            i += 1;
        }
        proof {
            assert(gen_entry_keys(self@, *entries, i as int) == entry_keys_rule(self@, *entries, i as int));
        }
        count as u16
    }

    pub(crate) fn assign_property_targets(&mut self, entries: &Vec<HashEntry>, source: &str)
        ensures
            final(self)@ == gen_property_targets(old(self)@, *entries, source@, 0),
        decreases *entries, 2int, entries@.len(),
    {
        proof {
            reveal(property_targets_rule);
            assert(gen_property_targets(old(self)@, *entries, source@, 0) == property_targets_rule(old(self)@, *entries, source@, 0));
        }
        let mut i: usize = 0;
        while i < entries.len()
            invariant
                0 <= i <= entries@.len(),
                gen_property_targets(self@, *entries, source@, i as int) == gen_property_targets(
                    old(self)@,
                    *entries,
                    source@,
                    0,
                ),
            decreases entries@.len() - i,
        {
            proof {
                reveal(property_targets_rule);
                assert(gen_property_targets(self@, *entries, source@, i as int) == property_targets_rule(self@, *entries, source@, i as int));
            }
            assert(decreases_to!(*entries => entries@[i as int]));
            match &entries[i] {
                HashEntry::Spread(target) => match target {
                    Expression::Identifier(name) => {
                        self.compile_identifier(source);
                        let count: u16 = self.compile_entry_keys(entries);
                        self.emit1(Opcode::OpObjectRest, count);
                        self.assign_target_from_top(name.as_str());
                    },
                    _ => {
                        self.fail("object rest destructuring assignment requires identifier target".to_owned());
                    },
                },
                HashEntry::KeyValue { key, value } => {
                    self.compile_identifier(source);
                    self.compile_expression(key);
                    self.emit0(Opcode::OpIndex);
                    self.assign_property_target(value);
                },
                _ => {
                    self.fail("methods/getters/setters not valid in destructuring assignment".to_owned());
                },
            }
            i += 1;
        }
        proof {
            assert(gen_property_targets(self@, *entries, source@, i as int) == property_targets_rule(self@, *entries, source@, i as int));
        }
    }

    pub(crate) fn assign_property_target(&mut self, target: &Expression)
        ensures
            final(self)@ == gen_property_target(old(self)@, *target),
        decreases *target, 10int, 0int,
    {
        proof {
            reveal(property_target_rule);
            assert(gen_property_target(old(self)@, *target) == property_target_rule(old(self)@, *target));
        }
        match target {
            Expression::Identifier(name) => self.assign_target_from_top(name.as_str()),
            Expression::Assign { left, operator, right } => {
                if !str_eq(operator.as_str(), "=") {
                    self.fail("object destructuring assignment supports identifier or nested pattern targets only".to_owned());
                return ;
                }
                match &**left {
                    Expression::Identifier(name) => {
                        self.apply_destructuring_default(right);
                        self.assign_target_from_top(name.as_str())
                    },
                    Expression::Array(_) | Expression::Hash(_) => {
                        self.apply_destructuring_default(right);
                        self.destructure_nested(left, "obj_nested")
                    },
                    _ => self.fail("object destructuring default supports identifier or nested pattern targets only".to_owned()),
                }
            },
            Expression::Array(_) | Expression::Hash(_) => self.destructure_nested(
                target,
                "obj_nested",
            ),
            _ => self.fail("object destructuring assignment supports identifier or nested pattern targets only".to_owned()),
        }
    }
}

/// The object and key that an assignment or update stores to.
fn find_index_target(e: &Expression) -> (r: Option<(&Expression, &Expression)>)
    ensures
        match r {
            Some((object, index)) => index_target(*e) == Some((*object, *index)),
            None => index_target(*e) is None,
        },
{
    match e {
        Expression::Assign { left, .. } => match &**left {
            Expression::Index { left: object, index } => Some((&**object, &**index)),
            _ => None,
        },
        Expression::Update { target, .. } => match &**target {
            Expression::Index { left: object, index } => Some((&**object, &**index)),
            _ => None,
        },
        _ => None,
    }
}

/// Whether a key can be evaluated more than once.
fn test_plain_key(index: &Expression) -> (r: bool)
    ensures
        r == is_plain_key(*index),
{
    match index {
        Expression::String(_) | Expression::Integer(_) | Expression::Identifier(_) => true,
        _ => false,
    }
}

/// Whether the target of an update can be evaluated once to read it and once to
/// store to it.
pub(crate) fn test_may_repeat(target: &Expression) -> (r: bool)
    ensures
        r == may_repeat(*target),
{
    match target {
        Expression::Index { left, index } => match &**left {
            Expression::Identifier(_) | Expression::This => test_plain_key(index),
            _ => false,
        },
        _ => true,
    }
}

} // verus!
