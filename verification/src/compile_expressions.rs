//! Expressions of the stack compiler.
use vstd::prelude::*;

use crate::ast::{
    Expression, HashEntry,
};
use crate::builtins::lookup_global;
use crate::code::Opcode;
use crate::codegen::{
    CompilerView, PLACEHOLDER, has_spread,
};
use crate::compiler::{
    Compiler, infix_op, texts,
};
use crate::object::{
    CompiledFunctionObject, Object, RegExpObject, function_view,
};
use crate::rules::{
    accessor_name, accessors_rule, appends_rule, called_global, define_accessor, delete_rule,
    expr_rule, exprs_rule, gen_accessors, gen_appends, gen_delete, gen_expr, gen_exprs,
    gen_if_value, gen_logical, gen_pairs, gen_prefix, gen_sequence, sequence_rule, if_value_rule,
    logical_rule, pairs_rule, plain_entries,
};
use crate::scope_names::normalize_parameters;
use crate::text::{
    concat, str_eq,
};

verus! {

impl Compiler {
    pub(crate) fn compile_expressions(&mut self, items: &Vec<Expression>)
        ensures
            final(self)@ == gen_exprs(old(self)@, *items, 0),
        decreases *items, 1int, items@.len(),
    {
        proof {
            reveal(exprs_rule);
            assert(gen_exprs(old(self)@, *items, 0) == exprs_rule(old(self)@, *items, 0));
        }
        let mut i: usize = 0;
        while i < items.len()
            invariant
                0 <= i <= items@.len(),
                gen_exprs(self@, *items, i as int) == gen_exprs(old(self)@, *items, 0),
            decreases items@.len() - i,
        {
            proof {
                reveal(exprs_rule);
                assert(gen_exprs(self@, *items, i as int) == exprs_rule(self@, *items, i as int));
            }
            self.compile_expression(&items[i]);
            i += 1;
        }
        proof {
            assert(gen_exprs(self@, *items, i as int) == exprs_rule(self@, *items, i as int));
        }
    }

    pub(crate) fn compile_sequence(&mut self, items: &Vec<Expression>)
        ensures
            final(self)@ == gen_sequence(old(self)@, *items, 0),
        decreases *items, 1int, items@.len(),
    {
        proof {
            reveal(sequence_rule);
            assert(gen_sequence(old(self)@, *items, 0) == sequence_rule(old(self)@, *items, 0));
        }
        let mut i: usize = 0;
        while i < items.len()
            invariant
                0 <= i <= items@.len(),
                gen_sequence(self@, *items, i as int) == gen_sequence(old(self)@, *items, 0),
            decreases items@.len() - i,
        {
            proof {
                reveal(sequence_rule);
                assert(gen_sequence(self@, *items, i as int) == sequence_rule(
                    self@,
                    *items,
                    i as int,
                ));
            }
            self.compile_expression(&items[i]);
            if i + 1 < items.len() {
                self.emit0(Opcode::OpPop);
            }
            i += 1;
        }
        proof {
            assert(gen_sequence(self@, *items, i as int) == sequence_rule(self@, *items, i as int));
        }
    }

    pub(crate) fn compile_appends(&mut self, items: &Vec<Expression>)
        ensures
            final(self)@ == gen_appends(old(self)@, *items, 0),
        decreases *items, 1int, items@.len(),
    {
        proof {
            reveal(appends_rule);
            assert(gen_appends(old(self)@, *items, 0) == appends_rule(old(self)@, *items, 0));
        }
        let mut i: usize = 0;
        while i < items.len()
            invariant
                0 <= i <= items@.len(),
                gen_appends(self@, *items, i as int) == gen_appends(old(self)@, *items, 0),
            decreases items@.len() - i,
        {
            proof {
                reveal(appends_rule);
                assert(gen_appends(self@, *items, i as int) == appends_rule(self@, *items, i as int));
            }
            assert(decreases_to!(*items => items@[i as int]));
            match &items[i] {
                Expression::Spread { value } => {
                    self.compile_expression(value);
                    self.emit0(Opcode::OpAppendSpread);
                },
                _ => {
                    self.compile_expression(&items[i]);
                    self.emit0(Opcode::OpAppendElement);
                },
            }
            i += 1;
        }
        proof {
            assert(gen_appends(self@, *items, i as int) == appends_rule(self@, *items, i as int));
        }
    }

    pub(crate) fn compile_arguments_array(&mut self, arguments: &Vec<Expression>)
        ensures
            final(self)@ == gen_appends(old(self)@.emit1(Opcode::OpArray, 0), *arguments, 0),
        decreases *arguments, 2int, 0int,
    {
        self.emit1(Opcode::OpArray, 0);
        self.compile_appends(arguments)
    }

    pub(crate) fn compile_expression(&mut self, e: &Expression)
        ensures
            final(self)@ == gen_expr(old(self)@, *e),
        decreases *e, 7int, 0int,
    {
        proof {
            assert(gen_expr(old(self)@, *e) == if old(self)@.err is Some { old(self)@ } else { expr_rule(old(self)@, *e) }) by { reveal(expr_rule); }
        }
        if self.failed() {
            return ;
        }
        self.compile_expression_rule(e)
    }

    pub(crate) fn compile_expression_rule(&mut self, e: &Expression)
        ensures
            final(self)@ == expr_rule(old(self)@, *e),
        decreases *e, 6int, 0int,
    {
        proof {
            reveal(expr_rule);
        }
        match e {
            Expression::Integer(v) => self.push_int(*v),
            Expression::Float(bits) => self.push_float(*bits),
            Expression::String(v) => self.push_string(v.as_str()),
            Expression::RegExp { pattern, flags } => self.push_object(
                Object::RegExp(
                    Box::new(RegExpObject { pattern: pattern.clone(), flags: flags.clone() }),
                ),
            ),
            Expression::Boolean(v) => {
                self.emit0(
                    if *v {
                        Opcode::OpTrue
                    } else {
                        Opcode::OpFalse
                    },
                );
            },
            Expression::Null => {
                self.emit0(Opcode::OpNull);
            },
            Expression::Identifier(name) => {
                return self.compile_identifier(name.as_str());
            },
            Expression::This => {
                self.emit1(Opcode::OpGetLocal, 0);
            },
            Expression::Super => {
                self.emit0(Opcode::OpSuper);
            },
            Expression::NewTarget => {
                self.emit0(Opcode::OpNewTarget);
            },
            Expression::ImportMeta => {
                self.emit0(Opcode::OpImportMeta);
            },
            Expression::Array(items) => {
                if any_spread(items) {
                    self.compile_arguments_array(items);
                } else {
                    self.compile_expressions(items);
                    self.emit1(Opcode::OpArray, items.len() as u16);
                }
            },
            Expression::Hash(entries) => {
                let count: usize = self.compile_pairs(entries);
                self.emit1(Opcode::OpHash, ((count % 0x8000) * 2) as u16);
                self.compile_accessors(entries);
            },
            Expression::Prefix { operator, right } => {
                self.compile_expression(right);
                return self.compile_prefix(operator.as_str());
            },
            Expression::Typeof { value } => {
                if let Expression::Identifier(name) = &**value {
                    if self.knows(name.as_str()) || lookup_global(name.as_str()).is_some() || self.in_function() {
                        self.compile_expression(value);
                    } else {
                        self.emit0(Opcode::OpUndefined);
                    }
                } else {
                    self.compile_expression(value);
                }
                self.emit0(Opcode::OpTypeof);
            },
            Expression::Void { value } => {
                self.compile_expression(value);
                self.emit0(Opcode::OpPop);
                self.emit0(Opcode::OpUndefined);
            },
            Expression::Delete { value } => {
                return self.compile_delete_expression(value);
            },
            Expression::Await { value } => {
                self.compile_expression(value);
                self.emit0(Opcode::OpAwait);
            },
            Expression::Yield { value, .. } => {
                self.compile_expression(value);
                self.emit0(Opcode::OpYield);
            },
            Expression::Spread { .. } => {
                self.fail("spread expression is only valid in array literals".to_owned());
            },
            Expression::Infix { left, operator, right } => {
                let op = operator.as_str();
                if str_eq(op, ",") {
                    self.compile_expression(left);
                    self.emit0(Opcode::OpPop);
                    return self.compile_expression(right);
                }
                if str_eq(op, "&&") || str_eq(op, "||") || str_eq(op, "??") {
                    return self.compile_logical_expression(e);
                }
                self.compile_expression(left);
                self.compile_expression(right);
                match infix_op(op) {
                    Some(code) => {
                        self.emit0(code);
                    },
                    None => {
                        self.fail(concat("unsupported infix operator ", op));
                    },
                }
            },
            Expression::Sequence(items) => {
                return self.compile_sequence(items);
            },
            Expression::Assign { .. } => {
                return self.compile_assignment_expression(e);
            },
            Expression::Update { .. } => {
                return self.compile_update_expression(e);
            },
            Expression::If { .. } => {
                return self.compile_if_value(e);
            },
            Expression::Index { left, index } => {
                if let Expression::String(prop) = &**index {
                    if let Expression::Identifier(name) = &**left {
                        return self.compile_property(name.as_str(), prop.as_str());
                    }
                    self.compile_expression(left);
                    self.get_property(prop.as_str());
                } else {
                    self.compile_expression(left);
                    self.compile_expression(index);
                    self.emit0(Opcode::OpIndex);
                }
            },
            Expression::OptionalIndex { left, index } => {
                let held_name = self.make_temp_name("opt");
                let held = held_name.as_str();
                self.compile_expression(left);
                self.assign_identifier_from_top(held);
                self.compile_identifier(held);
                self.emit0(Opcode::OpIsNullish);
                let present: usize = self.emit1(Opcode::OpJumpNotTruthy, PLACEHOLDER);
                self.emit0(Opcode::OpUndefined);
                let absent: usize = self.emit1(Opcode::OpJump, PLACEHOLDER);
                let access: usize = self.here();
                self.change_operand(present, access);
                self.compile_identifier(held);
                self.compile_expression(index);
                self.emit0(Opcode::OpIndex);
                let end: usize = self.here();
                self.change_operand(absent, end);
            },
            Expression::OptionalCall { function, arguments } => {
                let held_name = self.make_temp_name("optcall");
                let held = held_name.as_str();
                self.compile_expression(function);
                self.assign_identifier_from_top(held);
                self.compile_identifier(held);
                self.emit0(Opcode::OpIsNullish);
                let present: usize = self.emit1(Opcode::OpJumpNotTruthy, PLACEHOLDER);
                self.emit0(Opcode::OpUndefined);
                let absent: usize = self.emit1(Opcode::OpJump, PLACEHOLDER);
                let call: usize = self.here();
                self.change_operand(present, call);
                self.compile_identifier(held);
                if any_spread(arguments) {
                    self.compile_arguments_array(arguments);
                    self.emit0(Opcode::OpCallSpread);
                } else {
                    self.compile_expressions(arguments);
                    self.emit1(Opcode::OpCall, arguments.len() as u16);
                }
                let end: usize = self.here();
                self.change_operand(absent, end);
            },
            Expression::Call { function, arguments } => {
                if any_spread(arguments) {
                    self.compile_expression(function);
                    self.compile_arguments_array(arguments);
                    self.emit0(Opcode::OpCallSpread);
                } else if let Some(slot) = self.try_resolve_global_function(function) {
                    self.compile_expressions(arguments);
                    self.emit2(Opcode::OpCallGlobal, slot, arguments.len() as u16);
                } else {
                    self.compile_expression(function);
                    self.compile_expressions(arguments);
                    self.emit1(Opcode::OpCall, arguments.len() as u16);
                }
            },
            Expression::New { callee, arguments } => {
                self.compile_expression(callee);
                if any_spread(arguments) {
                    self.compile_arguments_array(arguments);
                    self.emit0(Opcode::OpNewSpread);
                } else {
                    self.compile_expressions(arguments);
                    self.emit1(Opcode::OpNew, arguments.len() as u16);
                }
            },
            Expression::Function { parameters, body, is_async, is_generator, .. } => {
                let f = self.compile_function_literal(
                    parameters,
                    body,
                    true,
                    *is_async,
                    *is_generator,
                );
                self.push_object(Object::CompiledFunction(Box::new(f)));
            },
            Expression::Class { name, extends, members } => {
                return self.compile_class_value(name, extends, members);
            },
        }
    }

    pub(crate) fn try_resolve_global_function(&self, function: &Expression) -> (r: Option<u16>)
        ensures
            r == called_global(self@, *function),
    {
        match function {
            Expression::Identifier(name) => self.known_global(name.as_str()),
            _ => None,
        }
    }

    pub(crate) fn compile_prefix(&mut self, operator: &str)
        ensures
            final(self)@ == gen_prefix(old(self)@, operator@),
    {
        proof {
            reveal(gen_prefix);
        }
        if str_eq(operator, "!") {
            self.emit0(Opcode::OpBang);
        } else if str_eq(operator, "-") {
            self.emit0(Opcode::OpMinus);
        } else if str_eq(operator, "+") {
            self.emit0(Opcode::OpUnaryPlus);
        } else if str_eq(operator, "~") {
            self.push_int(-1);
            self.emit0(Opcode::OpBitwiseXor);
        } else {
            self.fail(concat("unsupported prefix operator ", operator));
        }
    }

    pub(crate) fn compile_logical_expression(&mut self, e: &Expression)
        ensures
            final(self)@ == gen_logical(old(self)@, *e),
        decreases *e, 4int, 0int,
    {
        proof {
            reveal(logical_rule);
            assert(gen_logical(old(self)@, *e) == logical_rule(old(self)@, *e));
        }
        match e {
            Expression::Infix { left, operator, right } => {
                let held_name = self.make_temp_name("logic");
                let held = held_name.as_str();
                self.compile_expression(left);
                self.assign_identifier_from_top(held);
                self.compile_identifier(held);
                if str_eq(operator.as_str(), "||") {
                    let eval_right: usize = self.emit1(Opcode::OpJumpNotTruthy, PLACEHOLDER);
                    self.compile_identifier(held);
                    let end: usize = self.emit1(Opcode::OpJump, PLACEHOLDER);
                    let right_start: usize = self.here();
                    self.change_operand(eval_right, right_start);
                    self.compile_expression(right);
                    let here: usize = self.here();
                    self.change_operand(end, here);
                } else {
                    if !str_eq(operator.as_str(), "&&") {
                        self.emit0(Opcode::OpIsNullish);
                    }
                    let use_left: usize = self.emit1(Opcode::OpJumpNotTruthy, PLACEHOLDER);
                    self.compile_expression(right);
                    let end: usize = self.emit1(Opcode::OpJump, PLACEHOLDER);
                    let left_start: usize = self.here();
                    self.change_operand(use_left, left_start);
                    self.compile_identifier(held);
                    let here: usize = self.here();
                    self.change_operand(end, here);
                }
            },
            _ => {},
        }
    }

    pub(crate) fn compile_if_value(&mut self, e: &Expression)
        ensures
            final(self)@ == gen_if_value(old(self)@, *e),
        decreases *e, 4int, 0int,
    {
        proof {
            reveal(if_value_rule);
            assert(gen_if_value(old(self)@, *e) == if_value_rule(old(self)@, *e));
        }
        match e {
            Expression::If { condition, consequence, alternative } => {
                let (jump, offset) = self.compile_condition(condition);
                self.compile_statements(consequence);
                self.remove_last_pop();
                let over: usize = self.emit1(Opcode::OpJump, PLACEHOLDER);
                let here: usize = self.here();
                self.change_operand_at(jump, offset, here);
                match alternative {
                    Some(alt) => {
                        self.compile_statements(alt);
                        self.remove_last_pop();
                    },
                    None => {
                        self.emit0(Opcode::OpNull);
                    },
                }
                let end: usize = self.here();
                self.change_operand(over, end);
            },
            _ => {},
        }
    }

    pub(crate) fn compile_delete_expression(&mut self, value: &Expression)
        ensures
            final(self)@ == gen_delete(old(self)@, *value),
        decreases *value, 8int, 0int,
    {
        proof {
            reveal(delete_rule);
            assert(gen_delete(old(self)@, *value) == delete_rule(old(self)@, *value));
            reveal(CompilerView::name_slot);
            reveal(CompilerView::global_slot);
        }
        match value {
            Expression::Index { left, index } => match &**left {
                Expression::Identifier(name) => {
                    match self.known_slot(name.as_str()) {
                        Some(slot) => {
                            self.load(slot);
                            self.compile_expression(index);
                            self.emit0(Opcode::OpDeleteProperty);
                            self.store(slot);
                        },
                        None => {},
                    }
                    self.emit0(Opcode::OpTrue);
                },
                _ => {
                    self.compile_expression(left);
                    self.compile_expression(index);
                    self.emit0(Opcode::OpDeleteProperty);
                    self.emit0(Opcode::OpPop);
                    self.emit0(Opcode::OpTrue);
                },
            },
            Expression::Identifier(_) => {
                self.emit0(Opcode::OpFalse);
            },
            _ => {
                self.compile_expression(value);
                self.emit0(Opcode::OpPop);
                self.emit0(Opcode::OpTrue);
            },
        }
    }

    pub(crate) fn compile_pairs(&mut self, entries: &Vec<HashEntry>) -> (r: usize)
        ensures
            (final(self)@, r as nat) == (
                    gen_pairs(old(self)@, *entries, 0),
                    plain_entries(entries@, entries@.len() as int),
                ),
        decreases *entries, 1int, entries@.len(),
    {
        proof {
            reveal(pairs_rule);
            assert(gen_pairs(old(self)@, *entries, 0) == pairs_rule(old(self)@, *entries, 0));
        }
        let mut count: usize = 0;
        let mut i: usize = 0;
        while i < entries.len()
            invariant
                0 <= i <= entries@.len(),
                count == plain_entries(entries@, i as int),
                count <= i,
                gen_pairs(self@, *entries, i as int) == gen_pairs(old(self)@, *entries, 0),
            decreases entries@.len() - i,
        {
            proof {
                reveal(pairs_rule);
                assert(gen_pairs(self@, *entries, i as int) == pairs_rule(self@, *entries, i as int));
            }
            assert(decreases_to!(*entries => entries@[i as int]));
            match &entries[i] {
                HashEntry::KeyValue { key, value } => {
                    self.compile_expression(key);
                    self.compile_expression(value);
                    count += 1;
                },
                HashEntry::Spread(value) => {
                    self.push_string("__fl_rest__");
                    self.compile_expression(value);
                    count += 1;
                },
                HashEntry::Method { key, parameters, body, is_async, is_generator } => {
                    self.compile_expression(key);
                    let f = self.compile_function_literal(
                        parameters,
                        body,
                        false,
                        *is_async,
                        *is_generator,
                    );
                    self.push_object(Object::CompiledFunction(Box::new(f)));
                    count += 1;
                },
                _ => {},
            }
            i += 1;
        }
        proof {
            assert(gen_pairs(self@, *entries, i as int) == pairs_rule(self@, *entries, i as int));
        }
        count
    }

    pub(crate) fn compile_accessors(&mut self, entries: &Vec<HashEntry>)
        ensures
            final(self)@ == gen_accessors(old(self)@, *entries, 0),
        decreases *entries, 1int, entries@.len(),
    {
        proof {
            reveal(accessors_rule);
            assert(gen_accessors(old(self)@, *entries, 0) == accessors_rule(old(self)@, *entries, 0));
        }
        let mut i: usize = 0;
        while i < entries.len()
            invariant
                0 <= i <= entries@.len(),
                gen_accessors(self@, *entries, i as int) == gen_accessors(old(self)@, *entries, 0),
            decreases entries@.len() - i,
        {
            proof {
                reveal(accessors_rule);
                assert(gen_accessors(self@, *entries, i as int) == accessors_rule(self@, *entries, i as int));
            }
            assert(decreases_to!(*entries => entries@[i as int]));
            match &entries[i] {
                HashEntry::Getter { key, body } => match find_accessor_name(key) {
                    Some(name) => {
                        let none: Vec<String> = Vec::new();
                        assert(texts(none@) =~= Seq::empty());
                        let f = self.compile_body(none, None, body, true, false, false);
                        self.define_accessor(f, name, 0);
                    },
                    None => {
                        self.fail("computed getter/setter keys not yet supported in stack compiler".to_owned());
                    },
                },
                HashEntry::Setter { key, parameter, body } => match find_accessor_name(key) {
                    Some(name) => {
                        let mut list: Vec<String> = Vec::new();
                        list.push(parameter.clone());
                        assert(list@ =~= seq![*parameter]);
                        match normalize_parameters(&list) {
                            Ok((names, rest)) => {
                                let f = self.compile_body(names, rest, body, true, false, false);
                                self.define_accessor(f, name, 1);
                            },
                            Err(e) => self.fail(e),
                        }
                    },
                    None => {
                        self.fail("computed getter/setter keys not yet supported in stack compiler".to_owned());
                    },
                },
                _ => {},
            }
            i += 1;
        }
        proof {
            assert(gen_accessors(self@, *entries, i as int) == accessors_rule(self@, *entries, i as int));
        }
    }

    pub(crate) fn define_accessor(&mut self, f: CompiledFunctionObject, name: &String, kind: u16)
        ensures
            final(self)@ == define_accessor(old(self)@, function_view(f), name@, kind),
    {
        proof {
            reveal(define_accessor);
        }
        self.push_object(Object::CompiledFunction(Box::new(f)));
        let idx: u16 = self.add_constant(Object::String(name.clone()));
        self.emit2(Opcode::OpDefineAccessor, idx, kind);
    }
}

/// Whether any item is a spread.
pub(crate) fn any_spread(items: &Vec<Expression>) -> (r: bool)
    ensures
        r == has_spread(items@),
{
    proof {
        reveal(has_spread);
    }
    let mut i: usize = 0;
    while i < items.len()
        invariant
            0 <= i <= items@.len(),
            forall|k: int| 0 <= k < i ==> !(#[trigger] items@[k] is Spread),
        decreases items@.len() - i,
    {
        if let Expression::Spread { .. } = &items[i] {
            proof {
                reveal(has_spread);
                assert(items@[i as int] is Spread);
            }
            return true;
        }
        i += 1;
    }
    false
}

/// The name of an accessor, where it is written out.
fn find_accessor_name(key: &Expression) -> (r: Option<&String>)
    ensures
        match r {
            Some(name) => accessor_name(*key) == Some(name@),
            None => accessor_name(*key) is None,
        },
{
    match key {
        Expression::String(name) => Some(name),
        Expression::Identifier(name) => Some(name),
        _ => None,
    }
}

} // verus!
