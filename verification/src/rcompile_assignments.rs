//! Assignment and destructuring in the register compiler.
use vstd::prelude::*;

use crate::ast::{
    ArrayBindingItem, BindingPattern, BindingTarget, Expression, HashEntry, ObjectBindingItem,
};
use crate::codegen::{name_and_property, Slot, PLACEHOLDER};
use crate::compile_assignments::test_may_repeat;
use crate::compile_expressions::any_spread;
use crate::compiler::{find_property, find_property_sum};
use crate::rcode::ROp;
use crate::rcodegen::{numeric_constant, RView};
use crate::rcompiler::{rcompound_op, RCompiler};
use crate::rrules::{
    add_constant_to_property, added_operand, array_items_rrule, assign_held_rrule, assign_rest,
    assign_rrule, default_rrule, destructure_rrule, element_reg, element_store_rrule,
    element_targets_rrule, entry_keys_rrule, fills_last, get_element, hold, index_assign_rrule,
    into_local_rrule, item_keys_rrule, logical_assign_rrule, logical_element_rrule,
    name_assign_rrule, nested_rrule, object_items_rrule, object_local, object_name, pattern_rrule,
    postfix_element_rrule, property_target_rrule, property_targets_rrule, rfuse_add,
    rfuse_property_add, rfuse_property_sum, rgen_array_items, rgen_assign, rgen_assign_held,
    rgen_default, rgen_destructure, rgen_element_store, rgen_element_targets, rgen_entry_keys,
    rgen_index_assign, rgen_into_local, rgen_item_keys, rgen_logical_assign, rgen_logical_element,
    rgen_name_assign, rgen_nested, rgen_object_items, rgen_pattern, rgen_postfix_element,
    rgen_property_target, rgen_property_targets, rgen_right, rgen_right_into, rgen_step,
    rgen_target, rgen_update, right_constant, right_into_rrule, right_rrule, step_rrule, store_rest,
    store_to_name, stored_element, stored_property, sum_operands, target_rrule, test_undefined,
    update_rrule, write_back,
};
use crate::rules::{kept_items, keyed_entries};
use crate::text::{concat, concat3, str_eq};

verus! {

impl RCompiler {
    // Patterns

    /// Read `source[i]` into a new register. Returns it.
    fn compile_element(&mut self, source: u16, i: usize) -> (r: u16)
        ensures
            final(self)@ == get_element(old(self)@, source, i as int),
            r == element_reg(old(self)@, i as int),
    {
        proof {
            reveal(get_element);
            reveal(element_reg);
        }
        let key: u16 = self.take_temp();
        self.load_int(key, i as i64);
        let value: u16 = self.take_temp();
        self.emit3(ROp::Index, value, source, key);
        value
    }

    /// Store `source[i..]` in a variable.
    fn compile_rest(&mut self, source: u16, i: usize, name: &str)
        ensures
            final(self)@ == store_rest(old(self)@, source, i as int, name@),
    {
        proof {
            reveal(store_rest);
        }
        let rest: u16 = self.take_temp();
        self.emit3(ROp::IteratorRest, rest, source, i as u16);
        self.store_identifier(name, rest);
    }

    /// Assign `source[i..]` to a variable that may have been declared constant.
    fn compile_rest_target(&mut self, source: u16, i: usize, name: &str)
        ensures
            final(self)@ == assign_rest(old(self)@, source, i as int, name@),
    {
        proof {
            reveal(assign_rest);
        }
        let rest: u16 = self.take_temp();
        self.emit3(ROp::IteratorRest, rest, source, i as u16);
        self.store_target(name, rest);
    }

    pub(crate) fn assign_pattern(&mut self, pattern: &BindingPattern, source: u16)
        ensures
            final(self)@ == rgen_pattern(old(self)@, *pattern, source),
        decreases *pattern, 4int, 0int,
    {
        proof {
            reveal(pattern_rrule);
            assert(rgen_pattern(
                old(self)@,
                *pattern,
                source,
            ) == pattern_rrule(
                old(self)@,
                *pattern,
                source,
            ));
        }
        match pattern {
            BindingPattern::Array(items) => self.assign_array_items(items, source),
            BindingPattern::Object(items) => self.assign_object_items(items, source),
        }
    }

    fn assign_array_items(&mut self, items: &Vec<ArrayBindingItem>, source: u16)
        ensures
            final(self)@ == rgen_array_items(old(self)@, *items, source, 0),
        decreases *items, 1int, items@.len() as int,
    {
        proof {
            reveal(array_items_rrule);
            assert(rgen_array_items(
                old(self)@,
                *items,
                source,
                0,
            ) == array_items_rrule(
                old(self)@,
                *items,
                source,
                0,
            ));
        }
        let mut i: usize = 0;
        while i < items.len()
            invariant
                0 <= i <= items@.len(),
                rgen_array_items(self@, *items, source, i as int) == rgen_array_items(
                    old(self)@,
                    *items,
                    source,
                    0,
                ),
            decreases items@.len() - i,
        {
            proof {
                reveal(array_items_rrule);
                assert(rgen_array_items(
                    self@,
                    *items,
                    source,
                    i as int,
                ) == array_items_rrule(
                    self@,
                    *items,
                    source,
                    i as int,
                ));
            }
            assert(decreases_to!(*items => items@[i as int]));
            match &items[i] {
                ArrayBindingItem::Hole => {},
                ArrayBindingItem::Binding { target, default_value } => {
                    let value: u16 = self.compile_element(source, i);
                    if let Some(d) = default_value {
                        self.apply_default(d, value);
                    }
                    self.assign_binding_target(target, value);
                },
                ArrayBindingItem::Rest { name } => self.compile_rest(source, i, name.as_str()),
            }
            i += 1;
        }
        proof {
            assert(rgen_array_items(
                self@,
                *items,
                source,
                i as int,
            ) == array_items_rrule(
                self@,
                *items,
                source,
                i as int,
            ));
        }
    }

    fn assign_object_items(&mut self, items: &Vec<ObjectBindingItem>, source: u16)
        ensures
            final(self)@ == rgen_object_items(old(self)@, *items, source, 0),
        decreases *items, 2int, items@.len() as int,
    {
        proof {
            reveal(object_items_rrule);
            assert(rgen_object_items(
                old(self)@,
                *items,
                source,
                0,
            ) == object_items_rrule(
                old(self)@,
                *items,
                source,
                0,
            ));
        }
        let mut i: usize = 0;
        while i < items.len()
            invariant
                0 <= i <= items@.len(),
                rgen_object_items(self@, *items, source, i as int) == rgen_object_items(
                    old(self)@,
                    *items,
                    source,
                    0,
                ),
            decreases items@.len() - i,
        {
            proof {
                reveal(object_items_rrule);
                assert(rgen_object_items(
                    self@,
                    *items,
                    source,
                    i as int,
                ) == object_items_rrule(
                    self@,
                    *items,
                    source,
                    i as int,
                ));
            }
            assert(decreases_to!(*items => items@[i as int]));
            let item = &items[i];
            if item.is_rest {
                let base: u16 = self.save_temps();
                let count: u16 = self.compile_item_keys(items);
                let rest: u16 = self.take_temp();
                self.emit4(ROp::ObjectRest, rest, source, base, count);
                match &item.target {
                    BindingTarget::Identifier(name) => self.store_identifier(name.as_str(), rest),
                    BindingTarget::Pattern(_) => {
                        self.fail("object rest target must be identifier".to_owned());
                    },
                }
            } else {
                let key: u16 = self.compile_expression(&item.key);
                let value: u16 = self.take_temp();
                self.emit3(ROp::Index, value, source, key);
                if let Some(d) = &item.default_value {
                    self.apply_default(d, value);
                }
                self.assign_binding_target(&item.target, value);
            }
            i += 1;
        }
        proof {
            assert(rgen_object_items(
                self@,
                *items,
                source,
                i as int,
            ) == object_items_rrule(
                self@,
                *items,
                source,
                i as int,
            ));
        }
    }

    /// Load the keys of the items that are not the rest. Returns their number.
    fn compile_item_keys(&mut self, items: &Vec<ObjectBindingItem>) -> (r: u16)
        ensures
            final(self)@ == rgen_item_keys(old(self)@, *items, 0),
            r == kept_items(items@, items@.len() as int) as u16,
        decreases *items, 1int, items@.len() as int,
    {
        proof {
            reveal(item_keys_rrule);
            assert(rgen_item_keys(old(self)@, *items, 0) == item_keys_rrule(old(self)@, *items, 0));
        }
        let mut count: usize = 0;
        let mut i: usize = 0;
        while i < items.len()
            invariant
                0 <= i <= items@.len(),
                count == kept_items(items@, i as int),
                count <= i,
                rgen_item_keys(self@, *items, i as int) == rgen_item_keys(old(self)@, *items, 0),
            decreases items@.len() - i,
        {
            proof {
                reveal(item_keys_rrule);
                assert(rgen_item_keys(
                    self@,
                    *items,
                    i as int,
                ) == item_keys_rrule(
                    self@,
                    *items,
                    i as int,
                ));
            }
            assert(decreases_to!(*items => items@[i as int]));
            if !items[i].is_rest {
                self.compile_expression(&items[i].key);
                count += 1;
            }
            i += 1;
        }
        proof {
            assert(rgen_item_keys(
                self@,
                *items,
                i as int,
            ) == item_keys_rrule(
                self@,
                *items,
                i as int,
            ));
        }
        count as u16
    }

    fn assign_binding_target(&mut self, target: &BindingTarget, source: u16)
        ensures
            final(self)@ == rgen_target(old(self)@, *target, source),
        decreases *target, 4int, 0int,
    {
        proof {
            reveal(target_rrule);
            assert(rgen_target(
                old(self)@,
                *target,
                source,
            ) == target_rrule(
                old(self)@,
                *target,
                source,
            ));
        }
        match target {
            BindingTarget::Identifier(name) => self.store_identifier(name.as_str(), source),
            BindingTarget::Pattern(p) => self.assign_pattern(p, source),
        }
    }

    /// Replace an undefined value in a register by a default.
    fn apply_default(&mut self, default: &Expression, value: u16)
        ensures
            final(self)@ == rgen_default(old(self)@, *default, value),
        decreases *default, 9int, 0int,
    {
        proof {
            reveal(default_rrule);
            assert(rgen_default(
                old(self)@,
                *default,
                value,
            ) == default_rrule(
                old(self)@,
                *default,
                value,
            ));
        }
        let skip: usize = self.compile_undefined_test(value);
        self.compile_expression_into(default, value);
        let here: usize = self.here();
        self.patch_jump(skip, here);
    }

    /// Test whether a register is undefined. Returns the jump that is taken
    /// when it is not.
    fn compile_undefined_test(&mut self, value: u16) -> (skip: usize)
        ensures
            (final(self)@, skip) == test_undefined(old(self)@, value),
    {
        proof {
            reveal(test_undefined);
        }
        let kind: u16 = self.take_temp();
        self.emit2(ROp::Typeof, kind, value);
        let idx: u16 = self.add_constant_string("undefined");
        let undefined: u16 = self.take_temp();
        self.load_const(undefined, idx);
        let equal: u16 = self.take_temp();
        self.emit3(ROp::Equal, equal, kind, undefined);
        self.emit2(ROp::JumpIfNot, equal, PLACEHOLDER)
    }

    // Assignment

    pub(crate) fn compile_assignment_into(&mut self, e: &Expression, dst: u16)
        ensures
            final(self)@ == rgen_assign(old(self)@, *e, dst),
        decreases *e, 5int, 1int,
    {
        proof {
            reveal(assign_rrule);
            assert(rgen_assign(old(self)@, *e, dst) == assign_rrule(old(self)@, *e, dst));
        }
        match e {
            Expression::Assign { left, operator, right } => match &**left {
                Expression::Identifier(name) => self.compile_ident_assignment_into(
                    name.as_str(),
                    operator.as_str(),
                    right,
                    dst,
                ),
                Expression::Index { .. } => {
                    proof {
                        reveal_strlit("");
                        assert(""@ =~= Seq::<char>::empty());
                    }
                    self.compile_index_assignment_into(e, operator.as_str(), "", dst);
                },
                Expression::Array(_) => if str_eq(operator.as_str(), "=") {
                    let source: u16 = self.compile_expression(right);
                    self.destructure(left, source);
                    self.copy_reg(dst, source);
                } else {
                    self.fail("only '=' supported for array destructuring assignment".to_owned());
                },
                Expression::Hash(_) => if str_eq(operator.as_str(), "=") {
                    let source: u16 = self.compile_expression(right);
                    self.destructure(left, source);
                    self.copy_reg(dst, source);
                } else {
                    self.fail("only '=' supported for object destructuring assignment".to_owned());
                },
                _ => self.fail("invalid assignment target".to_owned()),
            },
            _ => {},
        }
    }

    /// The constant that an assignment adds to a local, if that is what it
    /// does.
    fn try_fused_add(&mut self, name: &str, operator: &str, right: &Expression) -> (r: Option<u16>)
        ensures
            (final(self)@, r) == rfuse_add(old(self)@, name@, operator@, *right),
            r is Some ==> old(self)@.locals.has(name@),
    {
        proof {
            reveal(rfuse_add);
        }
        match find_added_operand(name, operator, right) {
            Some(amount) => if self.local_of(name).is_some() {
                self.try_numeric_const(amount)
            } else {
                None
            },
            None => None,
        }
    }

    /// Evaluate an expression into the register of a variable that it may
    /// read.
    pub(crate) fn compile_into_local(&mut self, e: &Expression, r: u16)
        ensures
            final(self)@ == rgen_into_local(old(self)@, *e, r),
        decreases *e, 9int, 1int,
    {
        proof {
            reveal(into_local_rrule);
            assert(rgen_into_local(old(self)@, *e, r) == into_local_rrule(old(self)@, *e, r));
        }
        if test_fills_last(e) {
            self.compile_expression_into(e, r);
        } else {
            let value: u16 = self.compile_expression(e);
            self.copy_reg(r, value);
        }
    }

    fn compile_ident_assignment_into(
        &mut self,
        name: &str,
        operator: &str,
        right: &Expression,
        dst: u16,
    )
        ensures
            final(self)@ == rgen_name_assign(old(self)@, name@, operator@, *right, dst),
        decreases *right, 10int, 0int,
    {
        proof {
            reveal(name_assign_rrule);
            assert(rgen_name_assign(
                old(self)@,
                name@,
                operator@,
                *right,
                dst,
            ) == name_assign_rrule(
                old(self)@,
                name@,
                operator@,
                *right,
                dst,
            ));
        }
        if self.is_const(name) {
            self.fail(concat3("Assignment to constant variable '", name, "'"));
            return ;
        }
        if str_eq(operator, "&&=") || str_eq(operator, "||=") || str_eq(operator, "??=") {
            self.compile_logical_assignment_ident(name, operator, right, dst);
            return ;
        }
        let fused = self.try_fused_add(name, operator, right);
        let local = self.local_of(name);
        if let Some(idx) = fused {
            proof {
                reveal(rfuse_add);
                reveal(numeric_constant);
                reveal(RView::add_int);
                reveal(RView::add_float);
                reveal(RView::add_constant);
            }
            if let Some(r) = local {
                self.add_to_local(name, r, idx, dst);
            }
            return ;
        }
        if str_eq(operator, "=") {
            match local {
                Some(r) => {
                    self.compile_into_local(right, r);
                    self.mirror_local_to_global(name, r);
                    self.copy_reg(dst, r);
                },
                None => {
                    let value: u16 = self.compile_expression(right);
                    self.store_global(name, value);
                    self.copy_reg(dst, value);
                },
            }
            return ;
        }
        match rcompound_op(operator) {
            Some(op) => {
                let current: u16 = self.take_temp();
                self.load_identifier_into(name, current);
                let operand: u16 = self.compile_expression(right);
                let result: u16 = self.take_temp();
                self.emit3(op, result, current, operand);
                self.store_computed(name, result, dst);
            },
            None => self.fail(concat("unsupported assignment operator ", operator)),
        }
    }

    /// Store a register in the variable that a name means.
    fn store_in_name(&mut self, name: &str, source: u16)
        ensures
            final(self)@ == store_to_name(old(self)@, name@, source),
    {
        proof {
            reveal(store_to_name);
        }
        match self.local_of(name) {
            Some(r) => {
                self.copy_reg(r, source);
                self.mirror_local_to_global(name, r);
            },
            None => self.store_global(name, source),
        }
    }

    fn compile_logical_assignment_ident(
        &mut self,
        name: &str,
        operator: &str,
        right: &Expression,
        dst: u16,
    )
        ensures
            final(self)@ == rgen_logical_assign(old(self)@, name@, operator@, *right, dst),
        decreases *right, 9int, 0int,
    {
        proof {
            reveal(logical_assign_rrule);
            assert(rgen_logical_assign(
                old(self)@,
                name@,
                operator@,
                *right,
                dst,
            ) == logical_assign_rrule(
                old(self)@,
                name@,
                operator@,
                *right,
                dst,
            ));
        }
        let current: u16 = self.take_temp();
        self.load_identifier_into(name, current);
        let is_and: bool = str_eq(operator, "&&=");
        if is_and || str_eq(operator, "||=") {
            self.copy_reg(dst, current);
            let keep: usize = if is_and {
                self.emit2(ROp::JumpIfNot, dst, PLACEHOLDER)
            } else {
                self.emit2(ROp::JumpIfTruthy, dst, PLACEHOLDER)
            };
            self.compile_expression_into(right, dst);
            self.store_in_name(name, dst);
            let here: usize = self.here();
            self.patch_jump(keep, here);
        } else {
            let nullish: u16 = self.take_temp();
            self.emit2(ROp::IsNullish, nullish, current);
            let keep: usize = self.emit2(ROp::JumpIfNot, nullish, PLACEHOLDER);
            self.compile_expression_into(right, dst);
            self.store_in_name(name, dst);
            let end: usize = self.emit1(ROp::Jump, PLACEHOLDER);
            let kept: usize = self.here();
            self.patch_jump(keep, kept);
            self.copy_reg(dst, current);
            let here: usize = self.here();
            self.patch_jump(end, here);
        }
    }

    /// The right side of an assignment, the number one for an update, or a
    /// hidden variable for a bare target, in a given register.
    fn compile_right_into(&mut self, e: &Expression, held: &str, dst: u16)
        ensures
            final(self)@ == rgen_right_into(old(self)@, *e, held@, dst),
        decreases *e, 2int, 0int,
    {
        proof {
            reveal(right_into_rrule);
            assert(rgen_right_into(
                old(self)@,
                *e,
                held@,
                dst,
            ) == right_into_rrule(
                old(self)@,
                *e,
                held@,
                dst,
            ));
        }
        match e {
            Expression::Assign { right, .. } => self.compile_expression_into(right, dst),
            Expression::Update { .. } => self.load_int(dst, 1),
            _ => self.load_identifier_into(held, dst),
        }
    }

    fn compile_right(&mut self, e: &Expression, held: &str) -> (r: u16)
        ensures
            r == old(self)@.next_temp,
            final(self)@ == rgen_right(old(self)@, *e, held@),
        decreases *e, 3int, 0int,
    {
        proof {
            reveal(right_rrule);
            assert(rgen_right(old(self)@, *e, held@) == right_rrule(old(self)@, *e, held@));
        }
        let dst: u16 = self.take_temp();
        self.compile_right_into(e, held, dst);
        dst
    }

    /// The local that holds the object of a store, if there is one.
    fn find_object_local(&self, object: &Expression) -> (r: Option<u16>)
        ensures
            r == object_local(self@, *object),
    {
        proof {
            reveal(object_local);
        }
        match find_object_name(object) {
            Some(name) => self.local_of(name),
            None => None,
        }
    }

    /// Store a changed object back in the local it came from.
    fn write_back_object(&mut self, object: &Expression, r: u16)
        ensures
            final(self)@ == write_back(old(self)@, *object, r),
    {
        proof {
            reveal(write_back);
        }
        if let Some(local) = self.find_object_local(object) {
            self.copy_reg(local, r);
        }
    }

    fn try_right_constant(&mut self, e: &Expression) -> (r: Option<u16>)
        ensures
            (final(self)@, r) == right_constant(old(self)@, *e),
    {
        proof {
            reveal(right_constant);
        }
        match e {
            Expression::Assign { right, .. } => self.try_numeric_const(right),
            Expression::Update { .. } => Some(self.add_constant_int(1)),
            _ => None,
        }
    }

    /// Detects `local.prop = local.prop + number`,
    /// `local.prop = number + local.prop` and `local.prop += number`.
    fn try_fused_property_add<'a>(&mut self, e: &'a Expression, operator: &str) -> (r: Option<
        (u16, &'a String, u16),
    >)
        ensures
            final(self)@ == rfuse_property_add(old(self)@, *e, operator@).0,
            match r {
                Some((reg, prop, idx)) => rfuse_property_add(old(self)@, *e, operator@).1 == Some(
                    (reg, prop@, idx),
                ),
                None => rfuse_property_add(old(self)@, *e, operator@).1 is None,
            },
    {
        proof {
            reveal(rfuse_property_add);
        }
        let (object, prop) = match find_stored_element(e) {
            Some((object, Expression::String(prop))) => (object, prop),
            _ => {
                return None;
            },
        };
        if str_eq(operator, "=") {
            match (object, find_sum_operands(e)) {
                (Expression::Identifier(name), Some((a, b))) => {
                    let r: u16 = match self.local_of(name.as_str()) {
                        Some(r) => r,
                        None => {
                            return None;
                        },
                    };
                    if is_property(a, name, prop) {
                        if let Some(idx) = self.try_numeric_const(b) {
                            return Some((r, prop, idx));
                        }
                    }
                    if is_property(b, name, prop) {
                        if let Some(idx) = self.try_numeric_const(a) {
                            return Some((r, prop, idx));
                        }
                    }
                    None
                },
                _ => None,
            }
        } else if str_eq(operator, "+=") {
            match self.find_object_local(object) {
                Some(r) => match self.try_right_constant(e) {
                    Some(idx) => Some((r, prop, idx)),
                    None => None,
                },
                None => None,
            }
        } else {
            None
        }
    }

    /// Add a constant to a property in place, and read it into `dst`.
    fn add_to_property(&mut self, r: u16, prop: &str, idx: u16, dst: u16)
        ensures
            final(self)@ == add_constant_to_property(old(self)@, r, prop@, idx, dst),
    {
        proof {
            reveal(add_constant_to_property);
        }
        let name: u16 = self.add_constant_string(prop);
        let cache: u16 = self.take_cache_slot();
        self.emit4(ROp::AddConstToRegProp, r, name, idx, cache);
        self.get_prop(dst, r, prop);
    }

    /// Detects `local.dst = local.a + local.b`.
    fn try_fused_property_sum<'a>(&mut self, e: &'a Expression, operator: &str) -> (r: Option<
        (Vec<u16>, &'a String),
    >)
        ensures
            final(self)@ == rfuse_property_sum(old(self)@, *e, operator@).0,
            match r {
                Some((v, prop)) => v@.len() > 0 && rfuse_property_sum(old(self)@, *e, operator@).1
                    == Some((v@, prop@)),
                None => rfuse_property_sum(old(self)@, *e, operator@).1 is None,
            },
    {
        proof {
            reveal(rfuse_property_sum);
        }
        match find_property_sum(e) {
            None => None,
            Some((name, first, second, third)) => {
                if !str_eq(operator, "=") {
                    return None;
                }
                let r: u16 = match self.local_of(name.as_str()) {
                    Some(r) => r,
                    None => {
                        return None;
                    },
                };
                let i1: u16 = self.add_constant_string(first.as_str());
                let c1: u16 = self.take_cache_slot();
                let i2: u16 = self.add_constant_string(second.as_str());
                let c2: u16 = self.take_cache_slot();
                let i3: u16 = self.add_constant_string(third.as_str());
                let c3: u16 = self.take_cache_slot();
                let operands = vec![r, i1, c1, i2, c2, i3, c3];
                assert(operands@ =~= seq![r, i1, c1, i2, c2, i3, c3]);
                Some((operands, third))
            },
        }
    }

    /// The variable that a plain store to a named property goes to.
    fn find_stored_property<'a>(&self, e: &'a Expression, operator: &str) -> (r: Option<
        (Slot, &'a String),
    >)
        ensures
            match r {
                Some((slot, prop)) => stored_property(self@, *e, operator@) == Some((slot, prop@)),
                None => stored_property(self@, *e, operator@) is None,
            },
    {
        proof {
            reveal(stored_property);
        }
        if !str_eq(operator, "=") {
            return None;
        }
        match find_stored_element(e) {
            Some((object, Expression::String(prop))) => match find_object_name(object) {
                Some(name) => match self.local_of(name) {
                    Some(r) => Some((Slot::Local(r), prop)),
                    None => match self.global_of(name) {
                        Some(g) => Some((Slot::Global(g), prop)),
                        None => None,
                    },
                },
                None => None,
            },
            _ => None,
        }
    }

    /// Assign to an element. `e` is the assignment, the update that is worth
    /// the assignment `operator` by one, or the target to which the hidden
    /// variable `held` is assigned.
    fn compile_index_assignment_into(
        &mut self,
        e: &Expression,
        operator: &str,
        held: &str,
        dst: u16,
    )
        ensures
            final(self)@ == rgen_index_assign(old(self)@, *e, operator@, held@, dst),
        decreases *e, 5int, 0int,
    {
        proof {
            reveal(index_assign_rrule);
            assert(rgen_index_assign(
                old(self)@,
                *e,
                operator@,
                held@,
                dst,
            ) == index_assign_rrule(
                old(self)@,
                *e,
                operator@,
                held@,
                dst,
            ));
        }
        if let Some((r, prop, idx)) = self.try_fused_property_add(e, operator) {
            self.add_to_property(r, prop.as_str(), idx, dst);
            return ;
        }
        if let Some((operands, prop)) = self.try_fused_property_sum(e, operator) {
            self.emit(ROp::AddRegPropsToRegProp, operands.as_slice());
            self.get_prop(dst, operands[0], prop.as_str());
            return ;
        }
        if let Some((slot, prop)) = self.find_stored_property(e, operator) {
            let idx: u16 = self.add_constant_string(prop.as_str());
            let cache: u16 = self.take_cache_slot();
            self.compile_right_into(e, held, dst);
            match slot {
                Slot::Local(r) => {
                    self.emit4(ROp::SetProp, r, idx, dst, cache);
                },
                Slot::Global(g) => {
                    self.emit4(ROp::SetGlobalProp, g, idx, dst, cache);
                },
            }
            return ;
        }
        if str_eq(operator, "&&=") || str_eq(operator, "||=") || str_eq(operator, "??=") {
            self.compile_logical_element(e, operator, held, dst);
        } else {
            self.compile_element_store(e, operator, held, dst);
        }
    }

    /// `object[key] ||= value` and its kind.
    fn compile_logical_element(&mut self, e: &Expression, operator: &str, held: &str, dst: u16)
        ensures
            final(self)@ == rgen_logical_element(old(self)@, *e, operator@, held@, dst),
        decreases *e, 4int, 0int,
    {
        proof {
            reveal(logical_element_rrule);
            assert(rgen_logical_element(
                old(self)@,
                *e,
                operator@,
                held@,
                dst,
            ) == logical_element_rrule(
                old(self)@,
                *e,
                operator@,
                held@,
                dst,
            ));
        }
        match find_stored_element(e) {
            Some((object, index)) => {
                let o: u16 = self.compile_expression(object);
                let k: u16 = self.compile_expression(index);
                let old_value: u16 = self.take_temp();
                self.emit3(ROp::Index, old_value, o, k);
                let skip: usize = if str_eq(operator, "||=") {
                    self.emit2(ROp::JumpIfTruthy, old_value, PLACEHOLDER)
                } else if str_eq(operator, "&&=") {
                    self.emit2(ROp::JumpIfNot, old_value, PLACEHOLDER)
                } else {
                    let nullish: u16 = self.take_temp();
                    self.emit2(ROp::IsNullish, nullish, old_value);
                    self.emit2(ROp::JumpIfNot, nullish, PLACEHOLDER)
                };
                let value: u16 = self.compile_right(e, held);
                self.emit3(ROp::SetIndex, o, k, value);
                self.write_back_object(object, o);
                self.emit2(ROp::Move, dst, value);
                let end: usize = self.emit1(ROp::Jump, PLACEHOLDER);
                let here: usize = self.here();
                self.patch_jump(skip, here);
                self.emit2(ROp::Move, dst, old_value);
                let done: usize = self.here();
                self.patch_jump(end, done);
            },
            None => {},
        }
    }

    /// `object[key] = value` and `object[key] op= value`.
    fn compile_element_store(&mut self, e: &Expression, operator: &str, held: &str, dst: u16)
        ensures
            final(self)@ == rgen_element_store(old(self)@, *e, operator@, held@, dst),
        decreases *e, 4int, 0int,
    {
        proof {
            reveal(element_store_rrule);
            assert(rgen_element_store(
                old(self)@,
                *e,
                operator@,
                held@,
                dst,
            ) == element_store_rrule(
                old(self)@,
                *e,
                operator@,
                held@,
                dst,
            ));
        }
        match find_stored_element(e) {
            Some((object, index)) => {
                let op = rcompound_op(operator);
                if !str_eq(operator, "=") && op.is_none() {
                    self.fail(
                        concat3(
                            "unsupported assignment operator ",
                            operator,
                            " for index target",
                        ),
                    );
                    return ;
                }
                let o: u16 = self.compile_expression(object);
                let k: u16 = self.compile_expression(index);
                let value: u16 = match op {
                    Some(op) => {
                        let old_value: u16 = self.take_temp();
                        self.emit3(ROp::Index, old_value, o, k);
                        let operand: u16 = self.compile_right(e, held);
                        let result: u16 = self.take_temp();
                        self.emit3(op, result, old_value, operand);
                        result
                    },
                    None => self.compile_right(e, held),
                };
                self.emit3(ROp::SetIndex, o, k, value);
                self.write_back_object(object, o);
                self.copy_reg(dst, value);
            },
            None => {},
        }
    }

    pub(crate) fn compile_update_into(&mut self, e: &Expression, dst: u16)
        ensures
            final(self)@ == rgen_update(old(self)@, *e, dst),
        decreases *e, 5int, 2int,
    {
        proof {
            reveal(update_rrule);
            assert(rgen_update(old(self)@, *e, dst) == update_rrule(old(self)@, *e, dst));
        }
        match e {
            Expression::Update { target, operator, prefix } => {
                let assign = if str_eq(operator.as_str(), "++") {
                    "+="
                } else if str_eq(operator.as_str(), "--") {
                    "-="
                } else {
                    self.fail(concat("unsupported update operator ", operator.as_str()));
                    return ;
                };
                if *prefix {
                    self.compile_step_target(e, assign, dst);
                } else if test_may_repeat(target) {
                    let old_value: u16 = self.compile_expression(target);
                    self.copy_reg(dst, old_value);
                    let result: u16 = self.take_temp();
                    self.compile_step_target(e, assign, result);
                } else {
                    self.compile_postfix_element(target, assign, dst);
                }
            },
            _ => {},
        }
    }

    /// Change an element by one. Its old value is the result.
    fn compile_postfix_element(&mut self, target: &Expression, assign: &str, dst: u16)
        ensures
            final(self)@ == rgen_postfix_element(old(self)@, *target, assign@, dst),
        decreases *target, 9int, 0int,
    {
        proof {
            reveal(postfix_element_rrule);
            assert(rgen_postfix_element(
                old(self)@,
                *target,
                assign@,
                dst,
            ) == postfix_element_rrule(
                old(self)@,
                *target,
                assign@,
                dst,
            ));
        }
        match target {
            Expression::Index { left, index } => {
                let o: u16 = self.compile_expression(left);
                let k: u16 = self.compile_expression(index);
                let old_value: u16 = self.take_temp();
                self.emit3(ROp::Index, old_value, o, k);
                let one: u16 = self.take_temp();
                self.load_int(one, 1);
                let result: u16 = self.take_temp();
                let op = if str_eq(assign, "+=") {
                    ROp::Add
                } else {
                    ROp::Sub
                };
                self.emit3(op, result, old_value, one);
                self.emit3(ROp::SetIndex, o, k, result);
                self.write_back_object(left, o);
                self.copy_reg(dst, old_value);
            },
            _ => {},
        }
    }

    /// Change the target of an update by one.
    fn compile_step_target(&mut self, e: &Expression, assign: &str, dst: u16)
        ensures
            final(self)@ == rgen_step(old(self)@, *e, assign@, dst),
        decreases *e, 5int, 1int,
    {
        proof {
            reveal(step_rrule);
            assert(rgen_step(
                old(self)@,
                *e,
                assign@,
                dst,
            ) == step_rrule(
                old(self)@,
                *e,
                assign@,
                dst,
            ));
        }
        match e {
            Expression::Update { target, .. } => match &**target {
                Expression::Identifier(name) => self.compile_step(name.as_str(), assign, dst),
                Expression::Index { .. } => {
                    proof {
                        reveal_strlit("");
                        assert(""@ =~= Seq::<char>::empty());
                    }
                    self.compile_index_assignment_into(e, assign, "", dst);
                },
                Expression::Array(_) => self.fail(
                    "only '=' supported for array destructuring assignment".to_owned(),
                ),
                Expression::Hash(_) => self.fail(
                    "only '=' supported for object destructuring assignment".to_owned(),
                ),
                _ => self.fail("invalid assignment target".to_owned()),
            },
            _ => {},
        }
    }

    // Destructuring

    /// Assign the parts of the value in a register to the targets of an array
    /// or object literal.
    fn destructure(&mut self, target: &Expression, source: u16)
        ensures
            final(self)@ == rgen_destructure(old(self)@, *target, source),
        decreases *target, 10int, 0int,
    {
        proof {
            reveal(destructure_rrule);
            assert(rgen_destructure(
                old(self)@,
                *target,
                source,
            ) == destructure_rrule(
                old(self)@,
                *target,
                source,
            ));
        }
        match target {
            Expression::Array(items) => self.destructure_array_assignment(items, source),
            Expression::Hash(entries) => self.destructure_object_assignment(entries, source),
            _ => {},
        }
    }

    /// Destructure a hidden variable.
    fn destructure_nested(&mut self, target: &Expression, held: &str, dst: u16)
        ensures
            final(self)@ == rgen_nested(old(self)@, *target, held@, dst),
        decreases *target, 11int, 0int,
    {
        proof {
            reveal(nested_rrule);
            assert(rgen_nested(
                old(self)@,
                *target,
                held@,
                dst,
            ) == nested_rrule(
                old(self)@,
                *target,
                held@,
                dst,
            ));
        }
        let source: u16 = self.load_identifier(held);
        self.destructure(target, source);
        self.copy_reg(dst, source);
    }

    /// Keep a value in a hidden variable. Returns its name.
    fn hold_value(&mut self, prefix: &str, value: u16) -> (name: String)
        ensures
            (final(self)@, name@) == hold(old(self)@, prefix@, value),
    {
        proof {
            reveal(hold);
        }
        let name = self.make_temp_name(prefix);
        self.store_identifier(name.as_str(), value);
        name
    }

    fn destructure_array_assignment(&mut self, items: &Vec<Expression>, source: u16)
        ensures
            final(self)@ == rgen_element_targets(old(self)@, *items, source, 0),
        decreases *items, 1int, items@.len() as int,
    {
        proof {
            reveal(element_targets_rrule);
            assert(rgen_element_targets(
                old(self)@,
                *items,
                source,
                0,
            ) == element_targets_rrule(
                old(self)@,
                *items,
                source,
                0,
            ));
        }
        let mut i: usize = 0;
        while i < items.len()
            invariant
                0 <= i <= items@.len(),
                rgen_element_targets(self@, *items, source, i as int) == rgen_element_targets(
                    old(self)@,
                    *items,
                    source,
                    0,
                ),
            decreases items@.len() - i,
        {
            proof {
                reveal(element_targets_rrule);
                assert(rgen_element_targets(
                    self@,
                    *items,
                    source,
                    i as int,
                ) == element_targets_rrule(
                    self@,
                    *items,
                    source,
                    i as int,
                ));
            }
            assert(decreases_to!(*items => items@[i as int]));
            match &items[i] {
                Expression::Spread { value: rest } => if i + 1 != items.len() {
                    self.fail("array rest element in assignment must be last".to_owned());
                } else {
                    match &**rest {
                        Expression::Identifier(name) => self.compile_rest_target(
                            source,
                            i,
                            name.as_str(),
                        ),
                        _ => {
                            self.fail(
                                "array rest assignment requires identifier target".to_owned(),
                            );
                        },
                    }
                },
                Expression::Identifier(name) => {
                    let value: u16 = self.compile_element(source, i);
                    self.store_target(name.as_str(), value);
                },
                Expression::Assign { left, operator, right } => if str_eq(operator.as_str(), "=") {
                    let value: u16 = self.compile_element(source, i);
                    self.apply_default(right, value);
                    match &**left {
                        Expression::Identifier(name) => self.store_target(
                            name.as_str(),
                            value,
                        ),
                        Expression::Array(_) | Expression::Hash(_) => {
                            self.destructure(left, value);
                        },
                        _ => {
                            self.fail(
                                "array destructuring supports identifier or nested pattern targets".to_owned(),
                            );
                        },
                    }
                } else {
                    self.fail(
                        "array destructuring assignment supports identifier targets".to_owned(),
                    );
                },
                Expression::Array(_) | Expression::Hash(_) => {
                    let value: u16 = self.compile_element(source, i);
                    let name = self.hold_value("arr_nested", value);
                    self.destructure_nested(&items[i], name.as_str(), value);
                },
                _ => {
                    self.fail(
                        "array destructuring assignment supports identifier targets".to_owned(),
                    );
                },
            }
            i += 1;
        }
        proof {
            assert(rgen_element_targets(
                self@,
                *items,
                source,
                i as int,
            ) == element_targets_rrule(
                self@,
                *items,
                source,
                i as int,
            ));
        }
    }

    /// Load the keys of the entries that are not the rest. Returns their
    /// number.
    fn compile_entry_keys(&mut self, entries: &Vec<HashEntry>) -> (r: u16)
        ensures
            final(self)@ == rgen_entry_keys(old(self)@, *entries, 0),
            r == keyed_entries(entries@, entries@.len() as int) as u16,
        decreases *entries, 1int, entries@.len() as int,
    {
        proof {
            reveal(entry_keys_rrule);
            assert(rgen_entry_keys(
                old(self)@,
                *entries,
                0,
            ) == entry_keys_rrule(
                old(self)@,
                *entries,
                0,
            ));
        }
        let mut count: usize = 0;
        let mut i: usize = 0;
        while i < entries.len()
            invariant
                0 <= i <= entries@.len(),
                count == keyed_entries(entries@, i as int),
                count <= i,
                rgen_entry_keys(self@, *entries, i as int) == rgen_entry_keys(
                    old(self)@,
                    *entries,
                    0,
                ),
            decreases entries@.len() - i,
        {
            proof {
                reveal(entry_keys_rrule);
                assert(rgen_entry_keys(
                    self@,
                    *entries,
                    i as int,
                ) == entry_keys_rrule(
                    self@,
                    *entries,
                    i as int,
                ));
            }
            assert(decreases_to!(*entries => entries@[i as int]));
            match &entries[i] {
                HashEntry::Spread(_) => {},
                HashEntry::KeyValue { key, .. } => {
                    self.compile_expression(key);
                    count += 1;
                },
                HashEntry::Method { key, .. } => {
                    self.compile_expression(key);
                    count += 1;
                },
                HashEntry::Getter { key, .. } => {
                    self.compile_expression(key);
                    count += 1;
                },
                HashEntry::Setter { key, .. } => {
                    self.compile_expression(key);
                    count += 1;
                },
            }
            i += 1;
        }
        proof {
            assert(rgen_entry_keys(
                self@,
                *entries,
                i as int,
            ) == entry_keys_rrule(
                self@,
                *entries,
                i as int,
            ));
        }
        count as u16
    }

    fn destructure_object_assignment(&mut self, entries: &Vec<HashEntry>, source: u16)
        ensures
            final(self)@ == rgen_property_targets(old(self)@, *entries, source, 0),
        decreases *entries, 2int, entries@.len() as int,
    {
        proof {
            reveal(property_targets_rrule);
            assert(rgen_property_targets(
                old(self)@,
                *entries,
                source,
                0,
            ) == property_targets_rrule(
                old(self)@,
                *entries,
                source,
                0,
            ));
        }
        let mut i: usize = 0;
        while i < entries.len()
            invariant
                0 <= i <= entries@.len(),
                rgen_property_targets(self@, *entries, source, i as int) == rgen_property_targets(
                    old(self)@,
                    *entries,
                    source,
                    0,
                ),
            decreases entries@.len() - i,
        {
            proof {
                reveal(property_targets_rrule);
                assert(rgen_property_targets(
                    self@,
                    *entries,
                    source,
                    i as int,
                ) == property_targets_rrule(
                    self@,
                    *entries,
                    source,
                    i as int,
                ));
            }
            assert(decreases_to!(*entries => entries@[i as int]));
            match &entries[i] {
                HashEntry::Spread(target) => match target {
                    Expression::Identifier(name) => {
                        let base: u16 = self.save_temps();
                        let count: u16 = self.compile_entry_keys(entries);
                        let rest: u16 = self.take_temp();
                        self.emit4(ROp::ObjectRest, rest, source, base, count);
                        self.store_target(name.as_str(), rest);
                    },
                    _ => {
                        self.fail(
                            "object rest destructuring requires identifier target".to_owned(),
                        );
                    },
                },
                HashEntry::KeyValue { key, value: target } => {
                    let k: u16 = self.compile_expression(key);
                    let value: u16 = self.take_temp();
                    self.emit3(ROp::Index, value, source, k);
                    self.assign_property_target(target, value);
                },
                _ => {
                    self.fail(
                        "methods/getters/setters not valid in destructuring assignment".to_owned(),
                    );
                },
            }
            i += 1;
        }
        proof {
            assert(rgen_property_targets(
                self@,
                *entries,
                source,
                i as int,
            ) == property_targets_rrule(
                self@,
                *entries,
                source,
                i as int,
            ));
        }
    }

    fn assign_property_target(&mut self, target: &Expression, value: u16)
        ensures
            final(self)@ == rgen_property_target(old(self)@, *target, value),
        decreases *target, 12int, 0int,
    {
        proof {
            reveal(property_target_rrule);
            assert(rgen_property_target(
                old(self)@,
                *target,
                value,
            ) == property_target_rrule(
                old(self)@,
                *target,
                value,
            ));
        }
        match target {
            Expression::Identifier(name) => self.store_target(name.as_str(), value),
            Expression::Assign { left, operator, right } => if str_eq(operator.as_str(), "=") {
                self.apply_default(right, value);
                match &**left {
                    Expression::Identifier(name) => self.store_target(name.as_str(), value),
                    _ => {
                        let name = self.hold_value("obj_nested", value);
                        let dst: u16 = self.take_temp();
                        self.assign_held(left, name.as_str(), dst);
                    },
                }
            } else {
                self.fail("object destructuring supports identifier targets".to_owned());
            },
            Expression::Array(_) | Expression::Hash(_) => {
                let name = self.hold_value("obj_nested", value);
                let dst: u16 = self.take_temp();
                self.destructure_nested(target, name.as_str(), dst);
            },
            _ => self.fail("object destructuring supports identifier targets".to_owned()),
        }
    }

    /// Assign a hidden variable to a target that is not a variable.
    fn assign_held(&mut self, target: &Expression, held: &str, dst: u16)
        ensures
            final(self)@ == rgen_assign_held(old(self)@, *target, held@, dst),
        decreases *target, 12int, 0int,
    {
        proof {
            reveal(assign_held_rrule);
            assert(rgen_assign_held(
                old(self)@,
                *target,
                held@,
                dst,
            ) == assign_held_rrule(
                old(self)@,
                *target,
                held@,
                dst,
            ));
        }
        match target {
            Expression::Array(_) | Expression::Hash(_) => self.destructure_nested(
                target,
                held,
                dst,
            ),
            Expression::Index { .. } => self.compile_index_assignment_into(
                target,
                "=",
                held,
                dst,
            ),
            _ => self.fail("invalid assignment target".to_owned()),
        }
    }
}

/// Whether the code of an expression writes its register only once everything
/// that it reads has been read.
fn test_fills_last(e: &Expression) -> (r: bool)
    ensures
        r == fills_last(*e),
{
    match e {
        Expression::Array(items) => !any_spread(items),
        Expression::Infix { operator, .. } => !str_eq(operator.as_str(), ",") && !str_eq(
            operator.as_str(),
            "&&",
        ) && !str_eq(operator.as_str(), "||") && !str_eq(operator.as_str(), "??"),
        Expression::Sequence(_)
        | Expression::Assign { .. }
        | Expression::Update { .. }
        | Expression::Class { .. } => false,
        _ => true,
    }
}

/// The number that `name = name + number` or `name += number` adds.
fn find_added_operand<'a>(name: &str, operator: &str, right: &'a Expression) -> (r: Option<
    &'a Expression,
>)
    ensures
        match r {
            Some(amount) => added_operand(name@, operator@, *right) == Some(*amount),
            None => added_operand(name@, operator@, *right) is None,
        },
{
    if str_eq(operator, "+=") {
        return Some(right);
    }
    if !str_eq(operator, "=") {
        return None;
    }
    match right {
        Expression::Infix { left, operator: plus, right: amount } => match &**left {
            Expression::Identifier(other) => if str_eq(plus.as_str(), "+") && str_eq(
                other.as_str(),
                name,
            ) {
                Some(&**amount)
            } else {
                None
            },
            _ => None,
        },
        _ => None,
    }
}

/// The object and key of an assignment or update, or of the target itself.
fn find_stored_element(e: &Expression) -> (r: Option<(&Expression, &Expression)>)
    ensures
        match r {
            Some((object, index)) => stored_element(*e) == Some((*object, *index)),
            None => stored_element(*e) is None,
        },
{
    match e {
        Expression::Assign { left, .. } => match &**left {
            Expression::Index { left: object, index } => Some((&**object, &**index)),
            _ => None,
        },
        Expression::Update { target, .. } => match &**target {
            Expression::Index { left: object, index } => Some((&**object, &**index)),
            _ => None,
        },
        Expression::Index { left: object, index } => Some((&**object, &**index)),
        _ => None,
    }
}

/// The name of an object that is a variable or `this`.
fn find_object_name(object: &Expression) -> (r: Option<&str>)
    ensures
        match r {
            Some(name) => object_name(*object) == Some(name@),
            None => object_name(*object) is None,
        },
{
    match object {
        Expression::Identifier(name) => Some(name.as_str()),
        Expression::This => Some("this"),
        _ => None,
    }
}

/// The two operands of a sum on the right side of an assignment.
fn find_sum_operands(e: &Expression) -> (r: Option<(&Expression, &Expression)>)
    ensures
        match r {
            Some((a, b)) => sum_operands(*e) == Some((*a, *b)),
            None => sum_operands(*e) is None,
        },
{
    match e {
        Expression::Assign { right, .. } => match &**right {
            Expression::Infix { left, operator, right } => if str_eq(operator.as_str(), "+") {
                Some((&**left, &**right))
            } else {
                None
            },
            _ => None,
        },
        _ => None,
    }
}

/// Whether an expression is `name.prop`.
fn is_property(e: &Expression, name: &String, prop: &String) -> (r: bool)
    ensures
        r == (name_and_property(*e) == Some((name@, prop@))),
{
    match find_property(e) {
        Some((n, p)) => str_eq(n.as_str(), name.as_str()) && str_eq(p.as_str(), prop.as_str()),
        None => false,
    }
}

} // verus!
