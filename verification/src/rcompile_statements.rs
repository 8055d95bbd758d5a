//! Statements of the register compiler.
use vstd::prelude::*;

use crate::ast::{Expression, ForBinding, Statement, SwitchCase, VariableKind};
use crate::codegen::{Slot, PLACEHOLDER};
use crate::compile_statements::{find_default_case, lemma_tested_grows, tested};
use crate::compiler::{label_text, texts};
use crate::object::Object;
use crate::rcode::ROp;
use crate::rcodegen::RView;
use crate::rcompiler::{pair_view, register_after, rcompound_op, RCompiler};
use crate::rrules::{
    add_constant_to_local, array_from_rrule, block_rrule, call_method, case_bodies_rrule,
    case_tests_rrule, catch_rrule, condition_rrule, do_while_rrule, for_in_rrule, for_of_rrule,
    for_rrule, for_update_rrule, freeing_walk, init_class, keeping_walk, note_throw, open_finally,
    open_thrown, plain_walk, resume_return, resume_throw, rfuse_last, rgen_array_from, rgen_block,
    rgen_case_bodies, rgen_case_tests, rgen_catch, rgen_condition, rgen_do_while, rgen_for,
    rgen_for_in, rgen_for_of, rgen_for_update, rgen_item, rgen_length_test, rgen_next_item,
    rgen_stmt, rgen_switch, rgen_try, rgen_walk, rgen_while, rpatch_cases, rstep_name,
    start_counter, stmt_rrule, store_result, switch_rrule, throw_reg, try_rrule, walk_rrule,
    while_rrule, Pick, Walk,
};
use crate::rules::{pattern_names, var_names};
use crate::scope_names::{collect_pattern_names, collect_var_names};
use crate::text::{concat, concat3, str_eq};

verus! {

impl RCompiler {
    /// Give the variables that `var` declares their slots before anything else.
    pub(crate) fn hoist_var_declarations(&mut self, stmts: &Vec<Statement>)
        ensures
            final(self)@ == old(self)@.declare_all(var_names(*stmts, 0), 0),
    {
        let mut names: Vec<String> = Vec::new();
        collect_var_names(stmts, &mut names);
        assert(texts(Seq::<String>::empty()) =~= Seq::empty());
        assert(texts(names@) =~= var_names(*stmts, 0));
        self.declare_all(&names)
    }

    /// Compile the first `n` statements of a list. Returns the register of the
    /// last value.
    pub(crate) fn compile_walk(
        &mut self,
        stmts: &Vec<Statement>,
        n: usize,
        walk: Walk,
        last: Option<u16>,
    ) -> (r: Option<u16>)
        requires
            n <= stmts@.len(),
        ensures
            (final(self)@, r) == rgen_walk(old(self)@, *stmts, 0, n as int, walk, last),
        decreases *stmts, 1int, n as int,
    {
        proof {
            reveal(walk_rrule);
            assert(rgen_walk(
                old(self)@,
                *stmts,
                0,
                n as int,
                walk,
                last,
            ) == walk_rrule(
                old(self)@,
                *stmts,
                0,
                n as int,
                walk,
                last,
            ));
        }
        let ghost first = last;
        let mut last: Option<u16> = last;
        let mut i: usize = 0;
        while i < n
            invariant
                0 <= i <= n <= stmts@.len(),
                rgen_walk(self@, *stmts, i as int, n as int, walk, last) == rgen_walk(
                    old(self)@,
                    *stmts,
                    0,
                    n as int,
                    walk,
                    first,
                ),
            decreases n - i,
        {
            proof {
                reveal(walk_rrule);
                assert(rgen_walk(
                    self@,
                    *stmts,
                    i as int,
                    n as int,
                    walk,
                    last,
                ) == walk_rrule(
                    self@,
                    *stmts,
                    i as int,
                    n as int,
                    walk,
                    last,
                ));
            }
            let is_function: bool = match &stmts[i] {
                Statement::FunctionDecl { .. } => true,
                _ => false,
            };
            let picked: bool = match walk.pick {
                Pick::All => true,
                Pick::Functions => is_function,
                Pick::Others => !is_function,
            };
            if picked {
                let value = self.compile_statement(&stmts[i]);
                if walk.free {
                    self.free_temps();
                }
                if !(walk.keep && value.is_none()) {
                    last = value;
                }
            }
            i += 1;
        }
        proof {
            assert(rgen_walk(
                self@,
                *stmts,
                i as int,
                n as int,
                walk,
                last,
            ) == walk_rrule(
                self@,
                *stmts,
                i as int,
                n as int,
                walk,
                last,
            ));
        }
        last
    }

    /// Compile the first `n` statements of a block, with variables of its own.
    pub(crate) fn compile_block(&mut self, stmts: &Vec<Statement>, n: usize, walk: Walk) -> (r:
        Option<u16>)
        requires
            n <= stmts@.len(),
        ensures
            (final(self)@, r) == rgen_block(old(self)@, *stmts, n as int, walk),
        decreases *stmts, 2int, 0int,
    {
        proof {
            reveal(block_rrule);
            assert(rgen_block(
                old(self)@,
                *stmts,
                n as int,
                walk,
            ) == block_rrule(
                old(self)@,
                *stmts,
                n as int,
                walk,
            ));
        }
        let hidden = self.enter_block_scope(stmts);
        let last = self.compile_walk(stmts, n, walk, None);
        self.exit_block_scope(&hidden);
        last
    }

    /// Compile a statement. Returns the register of its value, if it has one.
    pub(crate) fn compile_statement(&mut self, stmt: &Statement) -> (r: Option<u16>)
        ensures
            (final(self)@, r) == rgen_stmt(old(self)@, *stmt),
        decreases *stmt, 10int, 0int,
    {
        proof {
            assert(rgen_stmt(old(self)@, *stmt) == if old(self)@.err is Some {
                (old(self)@, None)
            } else {
                stmt_rrule(old(self)@, *stmt)
            }) by {
                reveal(stmt_rrule);
            }
        }
        if self.failed() {
            return None;
        }
        self.compile_statement_rule(stmt)
    }

    fn compile_statement_rule(&mut self, stmt: &Statement) -> (r: Option<u16>)
        ensures
            (final(self)@, r) == stmt_rrule(old(self)@, *stmt),
        decreases *stmt, 9int, 0int,
    {
        proof {
            reveal(stmt_rrule);
        }
        match stmt {
            Statement::Let { name, value, kind } => {
                if *kind == VariableKind::Const {
                    self.declare_const(name);
                }
                let known = self.local_of(name.as_str());
                match self.ensure_binding_slot(name.as_str()) {
                    Slot::Local(r) => {
                        if known.is_some() {
                            self.compile_into_local(value, r);
                        } else {
                            self.compile_expression_into(value, r);
                        }
                        if self.in_function() {
                            self.mirror_captured(name.as_str(), r);
                        }
                    },
                    Slot::Global(g) => {
                        let r: u16 = self.compile_expression(value);
                        self.emit2(ROp::SetGlobal, g, r);
                    },
                }
                None
            },
            Statement::LetPattern { pattern, value, kind } => {
                let mut names: Vec<String> = Vec::new();
                collect_pattern_names(pattern, &mut names);
                assert(texts(Seq::<String>::empty()) =~= Seq::empty());
                assert(texts(names@) =~= pattern_names(*pattern));
                if *kind == VariableKind::Const {
                    self.declare_consts(&names);
                }
                if self.in_function() {
                    self.declare_locals(&names);
                }
                let source: u16 = self.compile_expression(value);
                self.assign_pattern(pattern, source);
                None
            },
            Statement::Return { value } => {
                let r: u16 = self.compile_expression(value);
                match self.pending_return() {
                    Some((held, flag)) => self.defer_return(held.as_str(), flag.as_str(), r),
                    None => {
                        self.emit1(ROp::Return, r);
                    },
                }
                None
            },
            Statement::ReturnVoid => {
                match self.pending_return() {
                    Some((held, flag)) => {
                        let r: u16 = self.take_temp();
                        self.emit1(ROp::LoadUndef, r);
                        self.defer_return(held.as_str(), flag.as_str(), r);
                    },
                    None => {
                        self.emit0(ROp::ReturnUndef);
                    },
                }
                None
            },
            Statement::Expression(e) => {
                let r: u16 = self.compile_expression(e);
                Some(r)
            },
            Statement::Block(body) => self.compile_block(body, body.len(), plain()),
            Statement::MultiLet(body) => self.compile_walk(body, body.len(), plain(), None),
            Statement::While { .. } => {
                self.compile_while_statement(stmt, None);
                None
            },
            Statement::DoWhile { .. } => {
                self.compile_do_while_statement(stmt, None);
                None
            },
            Statement::For { .. } => {
                self.compile_for_statement(stmt, None);
                None
            },
            Statement::ForOf { .. } => {
                self.compile_for_of_statement(stmt, None);
                None
            },
            Statement::ForIn { .. } => {
                self.compile_for_in_statement(stmt, None);
                None
            },
            Statement::Switch { .. } => {
                self.compile_switch_statement(stmt, None);
                None
            },
            Statement::FunctionDecl { name, parameters, body, is_async, is_generator } => {
                let r: u16 = self.take_temp();
                let f = self.compile_function_literal(
                    parameters,
                    body,
                    true,
                    *is_async,
                    *is_generator,
                );
                self.load_function(r, f);
                self.store_binding(name.as_str(), r);
                None
            },
            Statement::ClassDecl { name, extends, members } => {
                proof {
                    reveal(init_class);
                }
                if let Some(n) = name {
                    self.declare_class(n.as_str());
                }
                let class = self.compile_class(name, extends, members);
                let has_static: bool = class.static_initializers.len() > 0;
                let idx: u16 = self.add_constant(Object::Class(Box::new(class)));
                let r: u16 = self.take_temp();
                self.load_const(r, idx);
                if has_static {
                    self.emit1(ROp::InitClass, r);
                    self.reload_locals_from_globals();
                }
                if let Some(n) = name {
                    self.store_binding(n.as_str(), r);
                }
                None
            },
            Statement::Throw { value } => {
                let r: u16 = self.compile_expression(value);
                self.compile_throw(r);
                None
            },
            Statement::Try { .. } => self.compile_try_statement(stmt),
            Statement::Labeled { label, statement } => {
                let label = Some(label.as_str());
                match &**statement {
                    Statement::While { .. } => self.compile_while_statement(statement, label),
                    Statement::DoWhile { .. } => self.compile_do_while_statement(statement, label),
                    Statement::Switch { .. } => self.compile_switch_statement(statement, label),
                    Statement::For { .. } => self.compile_for_statement(statement, label),
                    Statement::ForOf { .. } => self.compile_for_of_statement(statement, label),
                    Statement::ForIn { .. } => self.compile_for_in_statement(statement, label),
                    _ => self.fail("only loop statements can be labeled".to_owned()),
                }
                None
            },
            Statement::Break { label } => {
                match label {
                    Some(l) => self.jump_from_loop(Some(l.as_str()), true),
                    None => self.jump_from_loop(None, true),
                }
                None
            },
            Statement::Continue { label } => {
                match label {
                    Some(l) => self.jump_from_loop(Some(l.as_str()), false),
                    None => self.jump_from_loop(None, false),
                }
                None
            },
            Statement::Debugger => None,
        }
    }

    /// The test of an `if` or a loop. Returns the jump that is taken when it
    /// fails.
    pub(crate) fn compile_loop_condition(&mut self, c: &Expression) -> (pos: usize)
        ensures
            (final(self)@, pos) == rgen_condition(old(self)@, *c),
        decreases *c, 9int, 0int,
    {
        proof {
            reveal(condition_rrule);
            assert(rgen_condition(old(self)@, *c) == condition_rrule(old(self)@, *c));
        }
        if let Some((r, idx, or_equal)) = self.try_fused_compare_const(c) {
            let op = if or_equal {
                ROp::TestLeConstJump
            } else {
                ROp::TestLtConstJump
            };
            return self.emit3(op, r, idx, PLACEHOLDER);
        }
        if let Some((r, modulus, expected)) = self.try_fused_mod_strict_eq(c) {
            return self.emit4(
                ROp::ModRegConstStrictEqConstJump,
                r,
                modulus,
                expected,
                PLACEHOLDER,
            );
        }
        let r: u16 = self.compile_expression(c);
        self.emit2(ROp::JumpIfNot, r, PLACEHOLDER)
    }

    /// An increment at the end of a loop's body that can take the jump back
    /// into itself.
    fn try_fused_last(&mut self, body: &Vec<Statement>) -> (r: Option<(u16, u16)>)
        ensures
            (final(self)@, r) == rfuse_last(old(self)@, body@),
            r is Some ==> body@.len() > 0,
    {
        proof {
            reveal(rfuse_last);
        }
        let n: usize = body.len();
        if n == 0 {
            return None;
        }
        match &body[n - 1] {
            Statement::Expression(e) => match self.try_fused_increment(e) {
                Some((r, idx, name)) => if self.global_of(name.as_str()).is_some() {
                    None
                } else {
                    Some((r, idx))
                },
                None => None,
            },
            _ => None,
        }
    }

    fn compile_while_statement(&mut self, stmt: &Statement, label: Option<&str>)
        ensures
            final(self)@ == rgen_while(old(self)@, *stmt, label_text(label)),
        decreases *stmt, 4int, 0int,
    {
        proof {
            reveal(while_rrule);
            assert(rgen_while(
                old(self)@,
                *stmt,
                label_text(label),
            ) == while_rrule(
                old(self)@,
                *stmt,
                label_text(label),
            ));
        }
        match stmt {
            Statement::While { condition, body } => {
                let start: usize = self.here();
                let jump: usize = self.compile_loop_condition(condition);
                self.open_loop(label, start);
                match self.try_fused_last(body) {
                    Some((r, idx)) => {
                        self.compile_block(body, body.len() - 1, freeing());
                        self.emit3(ROp::IncrementRegAndJump, r, idx, start as u16);
                    },
                    None => {
                        self.compile_block(body, body.len(), freeing());
                        self.emit1(ROp::Jump, start as u16);
                    },
                }
                let end: usize = self.here();
                self.patch_jump(jump, end);
                self.close_loop(end);
            },
            _ => {},
        }
    }

    fn compile_do_while_statement(&mut self, stmt: &Statement, label: Option<&str>)
        ensures
            final(self)@ == rgen_do_while(old(self)@, *stmt, label_text(label)),
        decreases *stmt, 4int, 0int,
    {
        proof {
            reveal(do_while_rrule);
            assert(rgen_do_while(
                old(self)@,
                *stmt,
                label_text(label),
            ) == do_while_rrule(
                old(self)@,
                *stmt,
                label_text(label),
            ));
        }
        match stmt {
            Statement::DoWhile { body, condition } => {
                let start: usize = self.here();
                self.open_loop(label, start);
                self.compile_block(body, body.len(), freeing());
                self.continue_here();
                let r: u16 = self.compile_expression(condition);
                let exit: usize = self.emit2(ROp::JumpIfNot, r, PLACEHOLDER);
                self.emit1(ROp::Jump, start as u16);
                let end: usize = self.here();
                self.patch_jump(exit, end);
                self.close_loop(end);
            },
            _ => {},
        }
    }

    fn compile_for_statement(&mut self, stmt: &Statement, label: Option<&str>)
        ensures
            final(self)@ == rgen_for(old(self)@, *stmt, label_text(label)),
        decreases *stmt, 4int, 0int,
    {
        proof {
            reveal(for_rrule);
            assert(rgen_for(
                old(self)@,
                *stmt,
                label_text(label),
            ) == for_rrule(
                old(self)@,
                *stmt,
                label_text(label),
            ));
        }
        match stmt {
            Statement::For { init, condition, update, body } => {
                if let Some(first) = init {
                    self.compile_statement(first);
                }
                let start: usize = self.here();
                let jump: usize = match condition {
                    Some(c) => self.compile_loop_condition(c),
                    None => {
                        let r: u16 = self.take_temp();
                        self.emit1(ROp::LoadTrue, r);
                        self.emit2(ROp::JumpIfNot, r, PLACEHOLDER)
                    },
                };
                self.open_loop(label, start);
                self.compile_block(body, body.len(), freeing());
                self.continue_here();
                match update {
                    Some(u) => self.compile_for_update(u, start),
                    None => {
                        self.emit1(ROp::Jump, start as u16);
                    },
                }
                let end: usize = self.here();
                self.patch_jump(jump, end);
                self.close_loop(end);
            },
            _ => {},
        }
    }

    /// The update of a `for` loop, and the jump back to its start.
    fn compile_for_update(&mut self, update: &Expression, start: usize)
        ensures
            final(self)@ == rgen_for_update(old(self)@, *update, start),
        decreases *update, 9int, 0int,
    {
        proof {
            reveal(for_update_rrule);
            assert(rgen_for_update(
                old(self)@,
                *update,
                start,
            ) == for_update_rrule(
                old(self)@,
                *update,
                start,
            ));
        }
        match self.try_fused_increment(update) {
            Some((r, idx, name)) => if self.global_of(name.as_str()).is_some() {
                self.emit3(ROp::AddRegConst, r, r, idx);
                self.mirror_local_to_global(name.as_str(), r);
                self.emit1(ROp::Jump, start as u16);
            } else {
                self.emit3(ROp::IncrementRegAndJump, r, idx, start as u16);
            },
            None => {
                self.compile_expression(update);
                self.free_temps();
                self.emit1(ROp::Jump, start as u16);
            },
        }
    }

    /// Set the hidden counter of a loop to zero.
    fn compile_counter(&mut self, index: &str)
        ensures
            final(self)@ == start_counter(old(self)@, index@),
    {
        proof {
            reveal(start_counter);
        }
        if self.in_function() {
            let r: u16 = self.ensure_local(index);
            self.load_int(r, 0);
        } else {
            let r: u16 = self.take_temp();
            self.load_int(r, 0);
            self.store_global(index, r);
        }
    }

    fn compile_length_test(&mut self, index: &str, source: &str) -> (pos: usize)
        ensures
            (final(self)@, pos) == rgen_length_test(old(self)@, index@, source@),
    {
        proof {
            reveal(rgen_length_test);
        }
        let result: u16 = self.take_temp();
        let saved: u16 = self.load_identifier(index);
        let length: u16 = self.take_temp();
        self.get_name_prop(length, source, "length");
        self.emit3(ROp::LessThan, result, saved, length);
        self.restore_temps(saved);
        self.emit2(ROp::JumpIfNot, result, PLACEHOLDER)
    }

    fn compile_item(&mut self, index: &str, source: &str) -> (r: u16)
        ensures
            final(self)@ == rgen_item(old(self)@, index@, source@),
            r == old(self)@.next_temp,
    {
        proof {
            reveal(rgen_item);
        }
        let item: u16 = self.take_temp();
        let object: u16 = self.load_identifier(source);
        let key: u16 = self.load_identifier(index);
        self.emit3(ROp::Index, item, object, key);
        item
    }

    /// Store a computed value in a variable, and move it to `dst` as well.
    pub(crate) fn store_computed(&mut self, name: &str, result: u16, dst: u16)
        ensures
            final(self)@ == store_result(old(self)@, name@, result, dst),
    {
        proof {
            reveal(store_result);
        }
        match self.local_of(name) {
            Some(r) => {
                self.copy_reg(r, result);
                self.mirror_local_to_global(name, r);
                self.copy_reg(dst, r);
            },
            None => {
                self.store_global(name, result);
                self.copy_reg(dst, result);
            },
        }
    }

    /// Add a constant to the local in register `r`, and move it to `dst`.
    pub(crate) fn add_to_local(&mut self, name: &str, r: u16, idx: u16, dst: u16)
        requires
            old(self)@.locals.get(name@) == Some(r),
        ensures
            final(self)@ == add_constant_to_local(old(self)@, name@, idx, dst),
    {
        proof {
            reveal(add_constant_to_local);
        }
        self.emit3(ROp::AddRegConst, r, r, idx);
        self.mirror_local_to_global(name, r);
        self.copy_reg(dst, r);
    }

    /// `name += 1` or `name -= 1`.
    pub(crate) fn compile_step(&mut self, name: &str, operator: &str, dst: u16)
        ensures
            final(self)@ == rstep_name(old(self)@, name@, operator@, dst),
    {
        proof {
            reveal(rstep_name);
        }
        if self.is_const(name) {
            self.fail(concat3("Assignment to constant variable '", name, "'"));
            return ;
        }
        if str_eq(operator, "+=") {
            if let Some(r) = self.local_of(name) {
                proof {
                    reveal(RView::add_int);
                    reveal(RView::add_constant);
                }
                let idx: u16 = self.add_constant_int(1);
                self.add_to_local(name, r, idx, dst);
                return ;
            }
        }
        match rcompound_op(operator) {
            Some(op) => {
                let current: u16 = self.load_identifier(name);
                proof {
                    reveal(RView::load_name_new);
                }
                let one: u16 = self.take_temp();
                self.load_int(one, 1);
                let result: u16 = self.take_temp();
                self.emit3(op, result, current, one);
                self.store_computed(name, result, dst);
            },
            None => self.fail(concat("unsupported assignment operator ", operator)),
        }
    }

    fn compile_next_item(&mut self, index: &str, start: usize)
        ensures
            final(self)@ == rgen_next_item(old(self)@, index@, start),
    {
        proof {
            reveal(rgen_next_item);
        }
        let dst: u16 = self.take_temp();
        self.compile_step(index, "+=", dst);
        self.emit1(ROp::Jump, start as u16);
    }

    /// Call a method of the object in `base` with `count` arguments after it.
    pub(crate) fn compile_method_call(&mut self, dst: u16, base: u16, count: u16, prop: &str)
        ensures
            final(self)@ == call_method(old(self)@, dst, base, count, prop@),
    {
        proof {
            reveal(call_method);
        }
        let idx: u16 = self.add_constant_string(prop);
        let cache: u16 = self.take_cache_slot();
        self.emit5(ROp::CallMethod, dst, base, count, idx, cache);
    }

    /// `Array.from(iterable)`.
    fn compile_array_from(&mut self, iterable: &Expression, dst: u16)
        ensures
            final(self)@ == rgen_array_from(old(self)@, *iterable, dst),
        decreases *iterable, 9int, 0int,
    {
        proof {
            reveal(array_from_rrule);
            assert(rgen_array_from(
                old(self)@,
                *iterable,
                dst,
            ) == array_from_rrule(
                old(self)@,
                *iterable,
                dst,
            ));
        }
        let call: u16 = self.call_dst(dst);
        match iterable {
            Expression::Spread { value } => {
                let f: u16 = self.take_temp();
                self.get_name_prop(f, "Array", "from");
                let list: u16 = self.take_temp();
                self.emit3(ROp::Array, list, 0, 0);
                let v: u16 = self.compile_expression(value);
                self.emit2(ROp::AppendSpread, list, v);
                self.emit3(ROp::CallSpread, call, f, list);
                self.reload_and_move_result(call, dst);
            },
            _ => {
                let base: u16 = self.take_temp();
                self.load_identifier_into("Array", base);
                let first: u16 = register_after(base, 1);
                self.restore_temps(first);
                self.take_temp();
                self.compile_expression_into(iterable, first);
                self.restore_temps(register_after(first, 1));
                self.compile_method_call(call, base, 1, "from");
                self.reload_and_move_result(call, dst);
            },
        }
    }

    fn compile_for_of_statement(&mut self, stmt: &Statement, label: Option<&str>)
        ensures
            final(self)@ == rgen_for_of(old(self)@, *stmt, label_text(label)),
        decreases *stmt, 4int, 0int,
    {
        proof {
            reveal(for_of_rrule);
            assert(rgen_for_of(
                old(self)@,
                *stmt,
                label_text(label),
            ) == for_of_rrule(
                old(self)@,
                *stmt,
                label_text(label),
            ));
        }
        match stmt {
            Statement::ForOf { binding, iterable, body } => {
                let source_name = self.make_temp_name("iter");
                let index_name = self.make_temp_name("i");
                let source = source_name.as_str();
                let index = index_name.as_str();
                let values: u16 = self.take_temp();
                self.compile_array_from(iterable, values);
                self.store_identifier(source, values);
                self.compile_counter(index);
                let start: usize = self.here();
                let jump: usize = self.compile_length_test(index, source);
                self.open_loop(label, start);
                let item: u16 = self.compile_item(index, source);
                match binding {
                    ForBinding::Identifier(name) => self.store_identifier(name.as_str(), item),
                    ForBinding::Pattern(p) => self.assign_pattern(p, item),
                }
                self.compile_block(body, body.len(), plain());
                self.continue_here();
                self.compile_next_item(index, start);
                let end: usize = self.here();
                self.patch_jump(jump, end);
                self.close_loop(end);
            },
            _ => {},
        }
    }

    fn compile_for_in_statement(&mut self, stmt: &Statement, label: Option<&str>)
        ensures
            final(self)@ == rgen_for_in(old(self)@, *stmt, label_text(label)),
        decreases *stmt, 4int, 0int,
    {
        proof {
            reveal(for_in_rrule);
            assert(rgen_for_in(
                old(self)@,
                *stmt,
                label_text(label),
            ) == for_in_rrule(
                old(self)@,
                *stmt,
                label_text(label),
            ));
        }
        match stmt {
            Statement::ForIn { var_name, iterable, body } => {
                let source_name = self.make_temp_name("keys");
                let index_name = self.make_temp_name("ki");
                let source = source_name.as_str();
                let index = index_name.as_str();
                let object: u16 = self.compile_expression(iterable);
                let keys: u16 = self.take_temp();
                self.emit2(ROp::GetKeysIter, keys, object);
                self.store_identifier(source, keys);
                self.compile_counter(index);
                let start: usize = self.here();
                let jump: usize = self.compile_length_test(index, source);
                self.open_loop(label, start);
                let key: u16 = self.compile_item(index, source);
                self.store_identifier(var_name.as_str(), key);
                self.compile_block(body, body.len(), plain());
                self.continue_here();
                self.compile_next_item(index, start);
                let end: usize = self.here();
                self.patch_jump(jump, end);
                self.close_loop(end);
            },
            _ => {},
        }
    }

    fn compile_case_tests(&mut self, cases: &Vec<SwitchCase>, subject: u16, saved: u16) -> (r: Vec<
        usize,
    >)
        ensures
            (final(self)@, r@) == rgen_case_tests(
                old(self)@,
                *cases,
                subject,
                saved,
                0,
                Seq::empty(),
            ),
            r@.len() == tested(cases@, cases@.len() as int),
        decreases *cases, 1int, cases@.len() as int,
    {
        proof {
            reveal(case_tests_rrule);
            assert(rgen_case_tests(
                old(self)@,
                *cases,
                subject,
                saved,
                0,
                Seq::empty(),
            ) == case_tests_rrule(
                old(self)@,
                *cases,
                subject,
                saved,
                0,
                Seq::empty(),
            ));
        }
        let mut jumps: Vec<usize> = Vec::new();
        let mut i: usize = 0;
        while i < cases.len()
            invariant
                0 <= i <= cases@.len(),
                jumps@.len() == tested(cases@, i as int),
                rgen_case_tests(self@, *cases, subject, saved, i as int, jumps@)
                    == rgen_case_tests(old(self)@, *cases, subject, saved, 0, Seq::empty()),
            decreases cases@.len() - i,
        {
            proof {
                reveal(case_tests_rrule);
                assert(rgen_case_tests(
                    self@,
                    *cases,
                    subject,
                    saved,
                    i as int,
                    jumps@,
                ) == case_tests_rrule(
                    self@,
                    *cases,
                    subject,
                    saved,
                    i as int,
                    jumps@,
                ));
            }
            assert(decreases_to!(*cases => cases@[i as int]));
            if let Some(test) = &cases[i].test {
                let t: u16 = self.compile_expression(test);
                let equal: u16 = self.take_temp();
                self.emit3(ROp::StrictEqual, equal, subject, t);
                let jump: usize = self.emit2(ROp::JumpIfTruthy, equal, PLACEHOLDER);
                self.restore_temps(saved);
                jumps.push(jump);
            }
            i += 1;
        }
        proof {
            assert(rgen_case_tests(
                self@,
                *cases,
                subject,
                saved,
                i as int,
                jumps@,
            ) == case_tests_rrule(
                self@,
                *cases,
                subject,
                saved,
                i as int,
                jumps@,
            ));
        }
        jumps
    }

    fn compile_case_bodies(&mut self, cases: &Vec<SwitchCase>) -> (r: Vec<usize>)
        ensures
            (final(self)@, r@) == rgen_case_bodies(old(self)@, *cases, 0, Seq::empty()),
            r@.len() == cases@.len(),
        decreases *cases, 1int, cases@.len() as int,
    {
        proof {
            reveal(case_bodies_rrule);
            assert(rgen_case_bodies(
                old(self)@,
                *cases,
                0,
                Seq::empty(),
            ) == case_bodies_rrule(
                old(self)@,
                *cases,
                0,
                Seq::empty(),
            ));
        }
        let mut starts: Vec<usize> = Vec::new();
        let mut i: usize = 0;
        while i < cases.len()
            invariant
                0 <= i <= cases@.len(),
                starts@.len() == i,
                rgen_case_bodies(self@, *cases, i as int, starts@) == rgen_case_bodies(
                    old(self)@,
                    *cases,
                    0,
                    Seq::empty(),
                ),
            decreases cases@.len() - i,
        {
            proof {
                reveal(case_bodies_rrule);
                assert(rgen_case_bodies(
                    self@,
                    *cases,
                    i as int,
                    starts@,
                ) == case_bodies_rrule(
                    self@,
                    *cases,
                    i as int,
                    starts@,
                ));
            }
            assert(decreases_to!(*cases => cases@[i as int]));
            starts.push(self.here());
            let body = &cases[i].consequent;
            self.compile_walk(body, body.len(), freeing(), None);
            i += 1;
        }
        proof {
            assert(rgen_case_bodies(
                self@,
                *cases,
                i as int,
                starts@,
            ) == case_bodies_rrule(
                self@,
                *cases,
                i as int,
                starts@,
            ));
        }
        starts
    }

    fn patch_case_jumps(
        &mut self,
        cases: &Vec<SwitchCase>,
        jumps: &Vec<usize>,
        starts: &Vec<usize>,
    )
        requires
            jumps@.len() == tested(cases@, cases@.len() as int),
            starts@.len() == cases@.len(),
        ensures
            final(self)@ == rpatch_cases(old(self)@, cases@, 0, jumps@, 0, starts@),
    {
        proof {
            reveal(rpatch_cases);
        }
        let mut i: usize = 0;
        let mut j: usize = 0;
        while i < cases.len()
            invariant
                0 <= i <= cases@.len(),
                j == tested(cases@, i as int),
                j <= i,
                jumps@.len() == tested(cases@, cases@.len() as int),
                starts@.len() == cases@.len(),
                rpatch_cases(self@, cases@, i as int, jumps@, j as int, starts@) == rpatch_cases(
                    old(self)@,
                    cases@,
                    0,
                    jumps@,
                    0,
                    starts@,
                ),
            decreases cases@.len() - i,
        {
            proof {
                reveal(rpatch_cases);
                lemma_tested_grows(cases@, i + 1, cases@.len() as int);
            }
            if cases[i].test.is_some() {
                self.patch_jump(jumps[j], starts[i]);
                j += 1;
            }
            i += 1;
        }
    }

    fn compile_switch_statement(&mut self, stmt: &Statement, label: Option<&str>)
        ensures
            final(self)@ == rgen_switch(old(self)@, *stmt, label_text(label)),
        decreases *stmt, 4int, 0int,
    {
        proof {
            reveal(switch_rrule);
            assert(rgen_switch(
                old(self)@,
                *stmt,
                label_text(label),
            ) == switch_rrule(
                old(self)@,
                *stmt,
                label_text(label),
            ));
        }
        match stmt {
            Statement::Switch { discriminant, cases } => {
                self.open_loop(label, 0);
                let subject: u16 = self.compile_expression(discriminant);
                let saved: u16 = self.save_temps();
                let jumps = self.compile_case_tests(cases, subject, saved);
                let otherwise: usize = self.emit1(ROp::Jump, PLACEHOLDER);
                let starts = self.compile_case_bodies(cases);
                let end: usize = self.here();
                self.patch_case_jumps(cases, &jumps, &starts);
                match find_default_case(cases) {
                    Some(d) => self.patch_jump(otherwise, starts[d]),
                    None => self.patch_jump(otherwise, end),
                }
                self.close_switch(end);
            },
            _ => {},
        }
    }

    /// Prepare the hidden variables of a return that has to wait for a
    /// `finally` block.
    fn compile_finally_start(&mut self) -> (r: (String, String))
        ensures
            (final(self)@, (r.0@, r.1@)) == open_finally(old(self)@),
    {
        proof {
            reveal(open_finally);
        }
        let held = self.make_temp_name("ret_val");
        let flag = self.make_temp_name("ret_flag");
        let r: u16 = self.take_temp();
        self.emit1(ROp::LoadFalse, r);
        self.store_identifier(flag.as_str(), r);
        (held, flag)
    }

    /// Return now if a return has waited for the `finally` block.
    fn compile_resumed_return(&mut self, held: &str, flag: &str)
        ensures
            final(self)@ == resume_return(old(self)@, held@, flag@),
    {
        proof {
            reveal(resume_return);
        }
        let f: u16 = self.load_identifier(flag);
        let skip: usize = self.emit2(ROp::JumpIfNot, f, PLACEHOLDER);
        let v: u16 = self.load_identifier(held);
        match self.pending_return() {
            Some((outer, outer_flag)) => self.defer_return(
                outer.as_str(),
                outer_flag.as_str(),
                v,
            ),
            None => {
                self.emit1(ROp::Return, v);
            },
        }
        let here: usize = self.here();
        self.patch_jump(skip, here);
    }

    /// Prepare the hidden variable that tells whether an exception has to wait for
    /// a `finally` block.
    fn compile_thrown_start(&mut self) -> (thrown: String)
        ensures
            (final(self)@, thrown@) == open_thrown(old(self)@),
    {
        proof {
            reveal(open_thrown);
        }
        let thrown = self.make_temp_name("exc_flag");
        let r: u16 = self.take_temp();
        self.emit1(ROp::LoadFalse, r);
        self.store_identifier(thrown.as_str(), r);
        thrown
    }

    /// Let an exception wait for the `finally` block, which follows.
    fn compile_noted_throw(&mut self, thrown: &str)
        ensures
            final(self)@ == note_throw(old(self)@, thrown@),
    {
        proof {
            reveal(note_throw);
        }
        let r: u16 = self.take_temp();
        self.emit1(ROp::LoadTrue, r);
        self.store_identifier(thrown, r);
    }

    /// Throw an exception in a register: to the innermost handler, or out of the
    /// code.
    fn compile_throw(&mut self, r: u16)
        ensures
            final(self)@ == throw_reg(old(self)@, r),
    {
        proof {
            reveal(throw_reg);
        }
        if self.outside_try() {
            self.emit1(ROp::Throw, r);
        } else {
            self.throw_to_handler(r);
        }
    }

    /// Throw an exception on if it has waited for the `finally` block.
    fn compile_resumed_throw(&mut self, exception: &str, thrown: &str)
        ensures
            final(self)@ == resume_throw(old(self)@, exception@, thrown@),
    {
        proof {
            reveal(resume_throw);
        }
        let f: u16 = self.load_identifier(thrown);
        let skip: usize = self.emit2(ROp::JumpIfNot, f, PLACEHOLDER);
        let r: u16 = self.load_identifier(exception);
        self.compile_throw(r);
        let here: usize = self.here();
        self.patch_jump(skip, here);
    }

    /// Compile a `catch` block. Returns the jumps in it that go to the `finally`
    /// block and the register of the last value.
    fn compile_catch(
        &mut self,
        stmt: &Statement,
        exception: &String,
        deferred: &Option<(String, String)>,
        last: Option<u16>,
    ) -> (r: (Vec<usize>, Option<u16>))
        ensures
            (final(self)@, r.0@, r.1) == rgen_catch(
                old(self)@,
                *stmt,
                exception@,
                pair_view(*deferred),
                last,
            ),
        decreases *stmt, 3int, 0int,
    {
        proof {
            reveal(catch_rrule);
            assert(rgen_catch(
                old(self)@,
                *stmt,
                exception@,
                pair_view(*deferred),
                last,
            ) == catch_rrule(
                old(self)@,
                *stmt,
                exception@,
                pair_view(*deferred),
                last,
            ));
        }
        match stmt {
            Statement::Try { catch_param, catch_block, .. } => match catch_block {
                Some(block) => {
                    if deferred.is_some() {
                        self.open_try(exception, deferred);
                    }
                    if let Some(p) = catch_param {
                        let r: u16 = self.load_identifier(exception.as_str());
                        self.store_identifier(p.as_str(), r);
                    }
                    let last = self.compile_walk(block, block.len(), keeping(), last);
                    if deferred.is_some() {
                        let over: usize = self.emit1(ROp::Jump, PLACEHOLDER);
                        let mut jumps = self.close_try();
                        jumps.push(over);
                        (jumps, last)
                    } else {
                        (Vec::new(), last)
                    }
                },
                None => (Vec::new(), last),
            },
            _ => (Vec::new(), last),
        }
    }

    fn compile_try_statement(&mut self, stmt: &Statement) -> (r: Option<u16>)
        ensures
            (final(self)@, r) == rgen_try(old(self)@, *stmt),
        decreases *stmt, 4int, 0int,
    {
        proof {
            reveal(try_rrule);
            assert(rgen_try(old(self)@, *stmt) == try_rrule(old(self)@, *stmt));
        }
        match stmt {
            Statement::Try { try_block, finally_block, .. } => {
                let exception = self.make_temp_name("exc");
                let r: u16 = self.take_temp();
                self.emit1(ROp::LoadNull, r);
                self.store_identifier(exception.as_str(), r);
                let deferred = if finally_block.is_some() {
                    let pair = self.compile_finally_start();
                    Some(pair)
                } else {
                    None
                };
                let thrown = if finally_block.is_some() {
                    self.compile_thrown_start()
                } else {
                    String::new()
                };
                self.open_try(&exception, &deferred);
                let last = self.compile_walk(try_block, try_block.len(), keeping(), None);
                let over: usize = self.emit1(ROp::Jump, PLACEHOLDER);
                let waiting = self.close_try();
                let (more, last) = self.compile_catch(stmt, &exception, &deferred, last);
                if finally_block.is_some() {
                    self.compile_noted_throw(thrown.as_str());
                }
                let finally_start: usize = self.here();
                if let Some(block) = finally_block {
                    if let Some((held, flag)) = &deferred {
                        self.compile_walk(block, block.len(), plain(), None);
                        self.compile_resumed_return(held.as_str(), flag.as_str());
                        self.compile_resumed_throw(exception.as_str(), thrown.as_str());
                    }
                }
                self.patch_jumps(&waiting, finally_start);
                self.patch_jumps(&more, finally_start);
                let target: usize = if finally_block.is_some() {
                    finally_start
                } else {
                    self.here()
                };
                self.patch_jump(over, target);
                last
            },
            _ => None,
        }
    }
}

pub(crate) fn plain() -> (w: Walk)
    ensures
        w == plain_walk(),
{
    Walk { pick: Pick::All, free: false, keep: false }
}

pub(crate) fn freeing() -> (w: Walk)
    ensures
        w == freeing_walk(),
{
    Walk { pick: Pick::All, free: true, keep: false }
}

pub(crate) fn keeping() -> (w: Walk)
    ensures
        w == keeping_walk(),
{
    Walk { pick: Pick::All, free: false, keep: true }
}

} // verus!
