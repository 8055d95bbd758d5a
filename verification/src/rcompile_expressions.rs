//! Expressions of the register compiler.
use vstd::prelude::*;

use crate::ast::{Expression, HashEntry};
use crate::builtins::lookup_global;
use crate::codegen::PLACEHOLDER;
use crate::compile_expressions::any_spread;
use crate::compiler::{blank, texts};
use crate::object::{function_view, CompiledFunctionObject, Object, RegExpObject};
use crate::rcode::ROp;

use crate::rcompile_statements::plain;
use crate::rcompiler::{register_after, rinfix_op, RCompiler};
use crate::rrules::{
    HashFunctions, add_accessor, appends_rrule, call_rrule, called_method, define_accessors,
    delete_rrule, expr_rrule, hash_functions_rrule, hash_rrule, if_rrule, init_class,
    logical_rrule, member_call_rrule, packed_rrule, pairs_rrule, rcalled_global, rgen_appends,
    rgen_call, rgen_delete, rgen_expr, rgen_expr_into, rgen_hash, rgen_hash_functions, rgen_if,
    rgen_logical, rgen_member_call, rgen_packed, rgen_pairs, rgen_prefix, rgen_sequence,
    sequence_rrule, test_nullish, write_back_name,
};
use crate::rules::plain_entries;
use crate::scope_names::normalize_parameters;
use crate::text::{concat, str_eq};

verus! {

impl RCompiler {
    /// Compile an expression. Returns the register of its value.
    pub(crate) fn compile_expression(&mut self, e: &Expression) -> (r: u16)
        ensures
            r == old(self)@.next_temp,
            final(self)@ == rgen_expr(old(self)@, *e),
        decreases *e, 8int, 0int,
    {
        let dst: u16 = self.take_temp();
        self.compile_expression_into(e, dst);
        dst
    }

    /// Compile an expression into a given register.
    pub(crate) fn compile_expression_into(&mut self, e: &Expression, dst: u16)
        ensures
            final(self)@ == rgen_expr_into(old(self)@, *e, dst),
        decreases *e, 7int, 0int,
    {
        proof {
            assert(rgen_expr_into(old(self)@, *e, dst) == if old(self)@.err is Some {
                old(self)@
            } else {
                expr_rrule(old(self)@, *e, dst)
            }) by {
                reveal(expr_rrule);
            }
        }
        if self.failed() {
            return ;
        }
        self.compile_expression_rule(e, dst)
    }

    /// Compile items into consecutive registers from `base` on.
    pub(crate) fn compile_packed(&mut self, items: &Vec<Expression>, base: u16)
        ensures
            final(self)@ == rgen_packed(old(self)@, *items, base, 0),
        decreases *items, 1int, items@.len() as int,
    {
        proof {
            reveal(packed_rrule);
            assert(rgen_packed(
                old(self)@,
                *items,
                base,
                0,
            ) == packed_rrule(
                old(self)@,
                *items,
                base,
                0,
            ));
        }
        let mut i: usize = 0;
        while i < items.len()
            invariant
                0 <= i <= items@.len(),
                rgen_packed(self@, *items, base, i as int) == rgen_packed(
                    old(self)@,
                    *items,
                    base,
                    0,
                ),
            decreases items@.len() - i,
        {
            proof {
                reveal(packed_rrule);
                assert(rgen_packed(
                    self@,
                    *items,
                    base,
                    i as int,
                ) == packed_rrule(
                    self@,
                    *items,
                    base,
                    i as int,
                ));
            }
            let r: u16 = register_after(base, i);
            self.restore_temps(r);
            self.take_temp();
            self.compile_expression_into(&items[i], r);
            i += 1;
        }
        proof {
            reveal(packed_rrule);
            assert(rgen_packed(
                self@,
                *items,
                base,
                i as int,
            ) == packed_rrule(
                self@,
                *items,
                base,
                i as int,
            ));
        }
        self.restore_temps(register_after(base, items.len()));
    }

    /// Append items to the array in a register.
    pub(crate) fn compile_appends(&mut self, items: &Vec<Expression>, list: u16)
        ensures
            final(self)@ == rgen_appends(old(self)@, *items, list, 0),
        decreases *items, 1int, items@.len() as int,
    {
        proof {
            reveal(appends_rrule);
            assert(rgen_appends(
                old(self)@,
                *items,
                list,
                0,
            ) == appends_rrule(
                old(self)@,
                *items,
                list,
                0,
            ));
        }
        let mut i: usize = 0;
        while i < items.len()
            invariant
                0 <= i <= items@.len(),
                rgen_appends(self@, *items, list, i as int) == rgen_appends(
                    old(self)@,
                    *items,
                    list,
                    0,
                ),
            decreases items@.len() - i,
        {
            proof {
                reveal(appends_rrule);
                assert(rgen_appends(
                    self@,
                    *items,
                    list,
                    i as int,
                ) == appends_rrule(
                    self@,
                    *items,
                    list,
                    i as int,
                ));
            }
            assert(decreases_to!(*items => items@[i as int]));
            match &items[i] {
                Expression::Spread { value } => {
                    let v: u16 = self.compile_expression(value);
                    self.emit2(ROp::AppendSpread, list, v);
                },
                _ => {
                    let v: u16 = self.compile_expression(&items[i]);
                    self.emit2(ROp::AppendElement, list, v);
                },
            }
            i += 1;
        }
        proof {
            assert(rgen_appends(
                self@,
                *items,
                list,
                i as int,
            ) == appends_rrule(
                self@,
                *items,
                list,
                i as int,
            ));
        }
    }

    fn compile_sequence(&mut self, items: &Vec<Expression>, dst: u16)
        ensures
            final(self)@ == rgen_sequence(old(self)@, *items, dst, 0),
        decreases *items, 1int, items@.len() as int,
    {
        proof {
            reveal(sequence_rrule);
            assert(rgen_sequence(
                old(self)@,
                *items,
                dst,
                0,
            ) == sequence_rrule(
                old(self)@,
                *items,
                dst,
                0,
            ));
        }
        let mut i: usize = 0;
        while i < items.len()
            invariant
                0 <= i <= items@.len(),
                rgen_sequence(self@, *items, dst, i as int) == rgen_sequence(
                    old(self)@,
                    *items,
                    dst,
                    0,
                ),
            decreases items@.len() - i,
        {
            proof {
                reveal(sequence_rrule);
                assert(rgen_sequence(
                    self@,
                    *items,
                    dst,
                    i as int,
                ) == sequence_rrule(
                    self@,
                    *items,
                    dst,
                    i as int,
                ));
            }
            if i + 1 == items.len() {
                self.compile_expression_into(&items[i], dst);
            } else {
                self.compile_expression(&items[i]);
            }
            i += 1;
        }
        proof {
            assert(rgen_sequence(
                self@,
                *items,
                dst,
                i as int,
            ) == sequence_rrule(
                self@,
                *items,
                dst,
                i as int,
            ));
        }
    }

    fn compile_prefix(&mut self, operator: &str, dst: u16, source: u16)
        ensures
            final(self)@ == rgen_prefix(old(self)@, operator@, dst, source),
    {
        proof {
            reveal(rgen_prefix);
        }
        if str_eq(operator, "!") {
            self.emit2(ROp::Not, dst, source);
        } else if str_eq(operator, "-") {
            self.emit2(ROp::Neg, dst, source);
        } else if str_eq(operator, "+") {
            self.emit2(ROp::UnaryPlus, dst, source);
        } else if str_eq(operator, "~") {
            // ~x = x ^ -1
            let idx: u16 = self.add_constant_int(-1);
            let ones: u16 = self.take_temp();
            self.load_const(ones, idx);
            self.emit3(ROp::BitwiseXor, dst, source, ones);
        } else {
            self.fail(concat("unsupported prefix operator ", operator));
        }
    }

    fn compile_expression_rule(&mut self, e: &Expression, dst: u16)
        ensures
            final(self)@ == expr_rrule(old(self)@, *e, dst),
        decreases *e, 6int, 0int,
    {
        proof {
            reveal(expr_rrule);
        }
        match e {
            Expression::Integer(v) => self.load_int(dst, *v),
            Expression::Float(bits) => self.load_float(dst, *bits),
            Expression::String(v) => self.load_string(dst, v.as_str()),
            Expression::RegExp { pattern, flags } => self.load_object(
                dst,
                Object::RegExp(
                    Box::new(RegExpObject { pattern: pattern.clone(), flags: flags.clone() }),
                ),
            ),
            Expression::Boolean(v) => {
                self.emit1(
                    if *v {
                        ROp::LoadTrue
                    } else {
                        ROp::LoadFalse
                    },
                    dst,
                );
            },
            Expression::Null => {
                self.emit1(ROp::LoadNull, dst);
            },
            Expression::Identifier(name) => self.load_identifier_into(name.as_str(), dst),
            Expression::This => self.load_identifier_into("this", dst),
            Expression::Super => {
                self.emit1(ROp::Super, dst);
            },
            Expression::NewTarget => {
                self.emit1(ROp::NewTarget, dst);
            },
            Expression::ImportMeta => {
                self.emit1(ROp::ImportMeta, dst);
            },
            Expression::Array(items) => if any_spread(items) {
                self.emit3(ROp::Array, dst, 0, 0);
                self.compile_appends(items, dst);
            } else {
                let base: u16 = self.save_temps();
                self.compile_packed(items, base);
                self.emit3(ROp::Array, dst, base, items.len() as u16);
            },
            Expression::Hash(entries) => self.compile_hash_into(entries, dst),
            Expression::Prefix { operator, right } => {
                let saved: u16 = self.compile_expression(right);
                self.compile_prefix(operator.as_str(), dst, saved);
                self.restore_temps(saved);
            },
            Expression::Typeof { value } => {
                let known: bool = match &**value {
                    Expression::Identifier(name) => self.local_of(name.as_str()).is_some()
                        || self.global_of(name.as_str()).is_some() || lookup_global(
                        name.as_str(),
                    ).is_some() || self.in_function(),
                    _ => true,
                };
                let saved: u16 = if known {
                    self.compile_expression(value)
                } else {
                    let r: u16 = self.take_temp();
                    self.emit1(ROp::LoadUndef, r);
                    r
                };
                self.emit2(ROp::Typeof, dst, saved);
                self.restore_temps(saved);
            },
            Expression::Void { value } => {
                let saved: u16 = self.compile_expression(value);
                self.restore_temps(saved);
                self.emit1(ROp::LoadUndef, dst);
            },
            Expression::Delete { value } => self.compile_delete_into(value, dst),
            Expression::Await { value } => {
                let source: u16 = self.compile_expression(value);
                self.emit2(ROp::Await, dst, source);
            },
            Expression::Yield { value, .. } => {
                let source: u16 = self.compile_expression(value);
                self.emit2(ROp::Yield, dst, source);
            },
            Expression::Spread { .. } => {
                self.fail("spread expression is only valid in array literals".to_owned());
            },
            Expression::Sequence(items) => self.compile_sequence(items, dst),
            Expression::Infix { left, operator, right } => {
                let op = operator.as_str();
                if str_eq(op, ",") {
                    let saved: u16 = self.compile_expression(left);
                    self.restore_temps(saved);
                    self.compile_expression_into(right, dst);
                } else if str_eq(op, "&&") || str_eq(op, "||") || str_eq(op, "??") {
                    self.compile_logical_into(e, dst);
                } else {
                    let saved: u16 = self.compile_expression(left);
                    let r: u16 = self.compile_expression(right);
                    match rinfix_op(op) {
                        Some(code) => {
                            self.emit3(code, dst, saved, r);
                        },
                        None => {
                            self.fail(concat("unsupported infix operator ", op));
                        },
                    }
                    self.restore_temps(saved);
                }
            },
            Expression::Assign { .. } => self.compile_assignment_into(e, dst),
            Expression::Update { .. } => self.compile_update_into(e, dst),
            Expression::If { .. } => self.compile_if_into(e, dst),
            Expression::Index { left, index } => match &**index {
                Expression::String(prop) => match &**left {
                    Expression::Identifier(name) => self.get_name_prop(
                        dst,
                        name.as_str(),
                        prop.as_str(),
                    ),
                    Expression::This => self.get_name_prop(dst, "this", prop.as_str()),
                    _ => {
                        let object: u16 = self.compile_expression(left);
                        self.get_prop(dst, object, prop.as_str());
                    },
                },
                _ => {
                    let object: u16 = self.compile_expression(left);
                    let key: u16 = self.compile_expression(index);
                    self.emit3(ROp::Index, dst, object, key);
                },
            },
            Expression::OptionalIndex { left, index } => {
                let object: u16 = self.compile_expression(left);
                let skip: usize = self.compile_nullish_test(object, dst);
                match &**index {
                    Expression::String(prop) => self.get_prop(dst, object, prop.as_str()),
                    _ => {
                        let key: u16 = self.compile_expression(index);
                        self.emit3(ROp::Index, dst, object, key);
                    },
                }
                let here: usize = self.here();
                self.patch_jump(skip, here);
            },
            Expression::OptionalCall { function, arguments } => {
                let call: u16 = self.call_dst(dst);
                let f: u16 = self.compile_expression(function);
                let skip: usize = self.compile_nullish_test(f, dst);
                if any_spread(arguments) {
                    let list: u16 = self.take_temp();
                    self.emit3(ROp::Array, list, 0, 0);
                    self.compile_appends(arguments, list);
                    self.emit3(ROp::CallSpread, call, f, list);
                } else {
                    let saved: u16 = self.save_temps();
                    self.compile_packed(arguments, register_after(f, 1));
                    self.emit3(ROp::Call, call, f, arguments.len() as u16);
                    self.restore_temps(saved);
                }
                self.reload_and_move_result(call, dst);
                let here: usize = self.here();
                self.patch_jump(skip, here);
            },
            Expression::Call { .. } => self.compile_call_into(e, dst),
            Expression::New { callee, arguments } => {
                let call: u16 = self.call_dst(dst);
                let base: u16 = self.compile_expression(callee);
                if any_spread(arguments) {
                    let list: u16 = self.take_temp();
                    self.emit3(ROp::Array, list, 0, 0);
                    self.compile_appends(arguments, list);
                    self.emit3(ROp::NewSpread, call, base, list);
                } else {
                    self.compile_packed(arguments, register_after(base, 1));
                    self.emit3(ROp::New, call, base, arguments.len() as u16);
                }
                self.reload_and_move_result(call, dst);
            },
            Expression::Function { parameters, body, is_async, is_generator, is_arrow } => {
                let f = self.compile_function_literal(
                    parameters,
                    body,
                    !*is_arrow,
                    *is_async,
                    *is_generator,
                );
                self.load_function(dst, f);
            },
            Expression::Class { name, extends, members } => {
                proof {
                    reveal(init_class);
                }
                let class = self.compile_class(name, extends, members);
                let has_static: bool = class.static_initializers.len() > 0;
                self.load_object(dst, Object::Class(Box::new(class)));
                if has_static {
                    self.emit1(ROp::InitClass, dst);
                    self.reload_locals_from_globals();
                }
            },
        }
    }

    /// Test whether a register is null or undefined, in which case `dst`
    /// becomes undefined. Returns the jump past what is to be done otherwise.
    fn compile_nullish_test(&mut self, source: u16, dst: u16) -> (skip: usize)
        ensures
            (final(self)@, skip) == test_nullish(old(self)@, source, dst),
    {
        proof {
            reveal(test_nullish);
        }
        let nullish: u16 = self.take_temp();
        self.emit2(ROp::IsNullish, nullish, source);
        let present: usize = self.emit2(ROp::JumpIfNot, nullish, PLACEHOLDER);
        self.emit1(ROp::LoadUndef, dst);
        let absent: usize = self.emit1(ROp::Jump, PLACEHOLDER);
        let here: usize = self.here();
        self.patch_jump(present, here);
        absent
    }

    fn try_resolve_global_function(&self, function: &Expression) -> (r: Option<u16>)
        ensures
            r == rcalled_global(self@, *function),
    {
        proof {
            reveal(rcalled_global);
        }
        match function {
            Expression::Identifier(name) => if self.local_of(name.as_str()).is_some() {
                None
            } else {
                self.global_of(name.as_str())
            },
            _ => None,
        }
    }

    fn compile_call_into(&mut self, e: &Expression, dst: u16)
        ensures
            final(self)@ == rgen_call(old(self)@, *e, dst),
        decreases *e, 4int, 0int,
    {
        proof {
            reveal(call_rrule);
            assert(rgen_call(old(self)@, *e, dst) == call_rrule(old(self)@, *e, dst));
        }
        match e {
            Expression::Call { function, arguments } => {
                let call: u16 = self.call_dst(dst);
                if any_spread(arguments) {
                    let base: u16 = self.compile_expression(function);
                    let list: u16 = self.take_temp();
                    self.emit3(ROp::Array, list, 0, 0);
                    self.compile_appends(arguments, list);
                    self.emit3(ROp::CallSpread, call, base, list);
                    self.reload_and_move_result(call, dst);
                } else if let Some(g) = self.try_resolve_global_function(function) {
                    let base: u16 = self.take_temp();
                    self.compile_packed(arguments, register_after(base, 1));
                    self.emit4(ROp::CallGlobal, call, g, base, arguments.len() as u16);
                    self.reload_and_move_result(call, dst);
                } else {
                    self.compile_member_call(e, dst, call);
                }
            },
            _ => {},
        }
    }

    /// A call of a method or of the value of an expression.
    fn compile_member_call(&mut self, e: &Expression, dst: u16, call: u16)
        ensures
            final(self)@ == rgen_member_call(old(self)@, *e, dst, call, old(self)@.next_temp),
        decreases *e, 3int, 0int,
    {
        proof {
            reveal(member_call_rrule);
            assert(rgen_member_call(
                old(self)@,
                *e,
                dst,
                call,
                old(self)@.next_temp,
            ) == member_call_rrule(
                old(self)@,
                *e,
                dst,
                call,
                old(self)@.next_temp,
            ));
        }
        match e {
            Expression::Call { function, arguments } => {
                let count: u16 = arguments.len() as u16;
                match find_called_method(function) {
                    Some((object, prop, optional)) => {
                        let base: u16 = self.compile_expression(object);
                        let first: u16 = register_after(base, 1);
                        if optional {
                            let skip: usize = self.compile_nullish_test(base, dst);
                            self.compile_packed(arguments, first);
                            self.compile_method_call(call, base, count, prop.as_str());
                            self.reload_and_move_result(call, dst);
                            let here: usize = self.here();
                            self.patch_jump(skip, here);
                        } else {
                            self.compile_packed(arguments, first);
                            self.compile_method_call(call, base, count, prop.as_str());
                            self.reload_and_move_result(call, dst);
                        }
                    },
                    None => {
                        let base: u16 = self.compile_expression(function);
                        self.compile_packed(arguments, register_after(base, 1));
                        self.emit3(ROp::Call, call, base, count);
                        self.reload_and_move_result(call, dst);
                    },
                }
            },
            _ => {},
        }
    }

    fn compile_if_into(&mut self, e: &Expression, dst: u16)
        ensures
            final(self)@ == rgen_if(old(self)@, *e, dst),
        decreases *e, 4int, 0int,
    {
        proof {
            reveal(if_rrule);
            assert(rgen_if(old(self)@, *e, dst) == if_rrule(old(self)@, *e, dst));
        }
        match e {
            Expression::If { condition, consequence, alternative } => {
                let jump: usize = self.compile_loop_condition(condition);
                let last = self.compile_block(consequence, consequence.len(), plain());
                if let Some(r) = last {
                    self.copy_reg(dst, r);
                }
                let over: usize = self.emit1(ROp::Jump, PLACEHOLDER);
                let here: usize = self.here();
                self.patch_jump(jump, here);
                match alternative {
                    Some(alt) => {
                        let last = self.compile_block(alt, alt.len(), plain());
                        if let Some(r) = last {
                            self.copy_reg(dst, r);
                        }
                    },
                    None => {
                        self.emit1(ROp::LoadNull, dst);
                    },
                }
                let here: usize = self.here();
                self.patch_jump(over, here);
            },
            _ => {},
        }
    }

    fn compile_logical_into(&mut self, e: &Expression, dst: u16)
        ensures
            final(self)@ == rgen_logical(old(self)@, *e, dst),
        decreases *e, 4int, 0int,
    {
        proof {
            reveal(logical_rrule);
            assert(rgen_logical(old(self)@, *e, dst) == logical_rrule(old(self)@, *e, dst));
        }
        match e {
            Expression::Infix { left, operator, right } => {
                let l: u16 = self.compile_expression(left);
                self.copy_reg(dst, l);
                let end: usize = if str_eq(operator.as_str(), "||") {
                    self.emit2(ROp::JumpIfTruthy, dst, PLACEHOLDER)
                } else if str_eq(operator.as_str(), "&&") {
                    self.emit2(ROp::JumpIfNot, dst, PLACEHOLDER)
                } else {
                    let nullish: u16 = self.take_temp();
                    self.emit2(ROp::IsNullish, nullish, dst);
                    self.emit2(ROp::JumpIfNot, nullish, PLACEHOLDER)
                };
                self.compile_expression_into(right, dst);
                let here: usize = self.here();
                self.patch_jump(end, here);
            },
            _ => {},
        }
    }

    fn compile_delete_into(&mut self, value: &Expression, dst: u16)
        ensures
            final(self)@ == rgen_delete(old(self)@, *value, dst),
        decreases *value, 9int, 0int,
    {
        proof {
            reveal(delete_rrule);
            assert(rgen_delete(old(self)@, *value, dst) == delete_rrule(old(self)@, *value, dst));
        }
        match value {
            Expression::Index { left, index } => {
                let object: u16 = self.compile_expression(left);
                let key: u16 = self.compile_expression(index);
                self.emit3(ROp::DeleteProp, dst, object, key);
                if let Expression::Identifier(name) = &**left {
                    self.write_back_to_name(name.as_str(), object);
                }
                self.emit1(ROp::LoadTrue, dst);
            },
            Expression::Identifier(_) => {
                self.emit1(ROp::LoadFalse, dst);
            },
            _ => {
                self.compile_expression(value);
                self.emit1(ROp::LoadTrue, dst);
            },
        }
    }

    /// Store a changed object back in the variable it came from.
    fn write_back_to_name(&mut self, name: &str, object: u16)
        ensures
            final(self)@ == write_back_name(old(self)@, name@, object),
    {
        proof {
            reveal(write_back_name);
        }
        if let Some(r) = self.local_of(name) {
            self.emit2(ROp::Move, r, object);
        } else if let Some(g) = self.global_of(name) {
            self.emit2(ROp::SetGlobal, g, object);
        }
    }

    // Object literals

    /// The constants of an accessor.
    fn add_accessor(&mut self, f: CompiledFunctionObject, key: &Expression, kind: u16) -> (r: Option<
        (u16, u16, u16),
    >)
        ensures
            (final(self)@, r) == add_accessor(old(self)@, function_view(f), *key, kind),
    {
        proof {
            reveal(add_accessor);
        }
        let function: u16 = self.add_constant(Object::CompiledFunction(Box::new(f)));
        match key {
            Expression::String(name) => {
                let prop: u16 = self.add_constant_string(name.as_str());
                Some((prop, function, kind))
            },
            _ => {
                if kind == 0 {
                    self.fail("computed getter keys not yet supported".to_owned());
                } else {
                    self.fail("computed setter keys not yet supported".to_owned());
                }
                None
            },
        }
    }

    /// Compile the functions of an object literal ahead of it. Returns the
    /// constants of its methods and accessors.
    fn compile_hash_functions(&mut self, entries: &Vec<HashEntry>) -> (r: (
        Vec<u16>,
        Vec<(u16, u16, u16)>,
    ))
        ensures
            (final(self)@, HashFunctions { methods: r.0@, accessors: r.1@ })
                == rgen_hash_functions(
                old(self)@,
                *entries,
                0,
                HashFunctions { methods: Seq::empty(), accessors: Seq::empty() },
            ),
        decreases *entries, 1int, entries@.len() as int,
    {
        let ghost none = HashFunctions { methods: Seq::empty(), accessors: Seq::empty() };
        proof {
            reveal(hash_functions_rrule);
            assert(rgen_hash_functions(
                old(self)@,
                *entries,
                0,
                none,
            ) == hash_functions_rrule(
                old(self)@,
                *entries,
                0,
                none,
            ));
        }
        let mut methods: Vec<u16> = Vec::new();
        let mut accessors: Vec<(u16, u16, u16)> = Vec::new();
        let mut i: usize = 0;
        while i < entries.len()
            invariant
                0 <= i <= entries@.len(),
                rgen_hash_functions(
                    self@,
                    *entries,
                    i as int,
                    HashFunctions { methods: methods@, accessors: accessors@ },
                ) == rgen_hash_functions(old(self)@, *entries, 0, none),
            decreases entries@.len() - i,
        {
            let ghost done = HashFunctions { methods: methods@, accessors: accessors@ };
            proof {
                reveal(hash_functions_rrule);
                assert(rgen_hash_functions(
                    self@,
                    *entries,
                    i as int,
                    done,
                ) == hash_functions_rrule(
                    self@,
                    *entries,
                    i as int,
                    done,
                ));
            }
            assert(decreases_to!(*entries => entries@[i as int]));
            match &entries[i] {
                HashEntry::Method { parameters, body, is_async, is_generator, .. } => {
                    let f = self.compile_function_literal(
                        parameters,
                        body,
                        true,
                        *is_async,
                        *is_generator,
                    );
                    let idx: u16 = self.add_constant(Object::CompiledFunction(Box::new(f)));
                    methods.push(idx);
                },
                HashEntry::Getter { key, body } => {
                    let none: Vec<String> = Vec::new();
                    assert(texts(none@) =~= Seq::empty());
                    let f = self.compile_body(none, None, body, true, false, false);
                    if let Some(accessor) = self.add_accessor(f, key, 0) {
                        accessors.push(accessor);
                    }
                },
                HashEntry::Setter { key, parameter, body } => {
                    let mut list: Vec<String> = Vec::new();
                    list.push(parameter.clone());
                    assert(list@ =~= seq![*parameter]);
                    let f = match normalize_parameters(&list) {
                        Ok((names, rest)) => self.compile_body(
                            names,
                            rest,
                            body,
                            true,
                            false,
                            false,
                        ),
                        Err(e) => {
                            self.fail(e);
                            blank()
                        },
                    };
                    if let Some(accessor) = self.add_accessor(f, key, 1) {
                        accessors.push(accessor);
                    }
                },
                _ => {},
            }
            i += 1;
        }
        let ghost done = HashFunctions { methods: methods@, accessors: accessors@ };
        proof {
            assert(rgen_hash_functions(
                self@,
                *entries,
                i as int,
                done,
            ) == hash_functions_rrule(
                self@,
                *entries,
                i as int,
                done,
            ));
        }
        (methods, accessors)
    }

    /// Compile key and value of each plain entry into consecutive registers.
    /// Returns the number of entries.
    fn compile_pairs(&mut self, entries: &Vec<HashEntry>, base: u16, methods: &Vec<u16>) -> (r:
        usize)
        ensures
            final(self)@ == rgen_pairs(old(self)@, *entries, base, methods@, 0, 0, 0),
            r == plain_entries(entries@, entries@.len() as int),
        decreases *entries, 1int, entries@.len() as int,
    {
        proof {
            reveal(pairs_rrule);
            assert(rgen_pairs(
                old(self)@,
                *entries,
                base,
                methods@,
                0,
                0,
                0,
            ) == pairs_rrule(
                old(self)@,
                *entries,
                base,
                methods@,
                0,
                0,
                0,
            ));
        }
        let mut count: usize = 0;
        let mut m: usize = 0;
        let mut i: usize = 0;
        while i < entries.len()
            invariant
                0 <= i <= entries@.len(),
                count == plain_entries(entries@, i as int),
                count <= i,
                m <= i,
                rgen_pairs(
                    self@,
                    *entries,
                    base,
                    methods@,
                    i as int,
                    count as int,
                    m as int,
                ) == rgen_pairs(old(self)@, *entries, base, methods@, 0, 0, 0),
            decreases entries@.len() - i,
        {
            proof {
                reveal(pairs_rrule);
                assert(rgen_pairs(
                    self@,
                    *entries,
                    base,
                    methods@,
                    i as int,
                    count as int,
                    m as int,
                ) == pairs_rrule(
                    self@,
                    *entries,
                    base,
                    methods@,
                    i as int,
                    count as int,
                    m as int,
                ));
            }
            assert(decreases_to!(*entries => entries@[i as int]));
            let key_reg: u16 = register_after(register_after(base, count), count);
            let value_reg: u16 = register_after(key_reg, 1);
            match &entries[i] {
                HashEntry::KeyValue { key, value } => {
                    self.take_pair(key_reg, value_reg);
                    self.compile_expression_into(key, key_reg);
                    self.compile_expression_into(value, value_reg);
                    count += 1;
                },
                HashEntry::Method { key, .. } => {
                    self.take_pair(key_reg, value_reg);
                    self.compile_expression_into(key, key_reg);
                    let idx: u16 = if m < methods.len() {
                        methods[m]
                    } else {
                        0
                    };
                    self.load_const(value_reg, idx);
                    m += 1;
                    count += 1;
                },
                HashEntry::Spread(value) => {
                    self.take_pair(key_reg, value_reg);
                    self.load_string(key_reg, "__fl_rest__");
                    self.compile_expression_into(value, value_reg);
                    count += 1;
                },
                _ => {},
            }
            i += 1;
        }
        proof {
            reveal(pairs_rrule);
            assert(rgen_pairs(
                self@,
                *entries,
                base,
                methods@,
                i as int,
                count as int,
                m as int,
            ) == pairs_rrule(
                self@,
                *entries,
                base,
                methods@,
                i as int,
                count as int,
                m as int,
            ));
        }
        self.restore_temps(register_after(register_after(base, count), count));
        count
    }

    /// Take the registers of a key and a value.
    fn take_pair(&mut self, key_reg: u16, value_reg: u16)
        ensures
            final(self)@ == old(self)@.set_temps(key_reg).take_temp().set_temps(
                value_reg,
            ).take_temp(),
    {
        self.restore_temps(key_reg);
        self.take_temp();
        self.restore_temps(value_reg);
        self.take_temp();
    }

    /// Attach accessors to the hash in a register.
    fn define_accessors(&mut self, dst: u16, accessors: &Vec<(u16, u16, u16)>)
        ensures
            final(self)@ == define_accessors(old(self)@, dst, accessors@, 0),
    {
        proof {
            reveal(define_accessors);
        }
        let mut i: usize = 0;
        while i < accessors.len()
            invariant
                0 <= i <= accessors@.len(),
                define_accessors(self@, dst, accessors@, i as int) == define_accessors(
                    old(self)@,
                    dst,
                    accessors@,
                    0,
                ),
            decreases accessors@.len() - i,
        {
            proof {
                reveal(define_accessors);
            }
            let (prop, function, kind) = accessors[i];
            let r: u16 = self.take_temp();
            self.load_const(r, function);
            self.emit4(ROp::DefineAccessor, dst, r, prop, kind);
            i += 1;
        }
    }

    fn compile_hash_into(&mut self, entries: &Vec<HashEntry>, dst: u16)
        ensures
            final(self)@ == rgen_hash(old(self)@, *entries, dst),
        decreases *entries, 2int, 0int,
    {
        proof {
            reveal(hash_rrule);
            assert(rgen_hash(old(self)@, *entries, dst) == hash_rrule(old(self)@, *entries, dst));
        }
        let (methods, accessors) = self.compile_hash_functions(entries);
        let base: u16 = self.save_temps();
        let count: usize = self.compile_pairs(entries, base, &methods);
        self.emit3(ROp::Hash, dst, base, register_after(register_after(0, count), count));
        self.define_accessors(dst, &accessors);
    }
}

/// The object and name of a method that is called, and whether the object may
/// be missing.
fn find_called_method(function: &Expression) -> (r: Option<(&Expression, &String, bool)>)
    ensures
        match r {
            Some((object, prop, optional)) => called_method(*function) == Some(
                (*object, prop@, optional),
            ),
            None => called_method(*function) is None,
        },
{
    match function {
        Expression::Index { left, index } => match &**index {
            Expression::String(prop) => Some((&**left, prop, false)),
            _ => None,
        },
        Expression::OptionalIndex { left, index } => match &**index {
            Expression::String(prop) => Some((&**left, prop, true)),
            _ => None,
        },
        _ => None,
    }
}

} // verus!
