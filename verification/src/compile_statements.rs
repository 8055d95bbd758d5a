//! Statements of the stack compiler.
use vstd::prelude::*;

use crate::ast::{
    Expression, ForBinding, Statement, SwitchCase, VariableKind,
};
use crate::code::Opcode;
use crate::codegen::{
    is_name_assignment,
    CompilerView, PLACEHOLDER, Slot,
};
use crate::compiler::{
    Compiler, label_text, texts,
};
use crate::object::Object;
use crate::rules::{
    case_bodies_rule, case_tests_rule, catch_rule, condition_rule, declare_all, default_case,
    do_while_rule, expr_stmt_rule, for_in_rule, for_of_rule, for_rule, for_update_rule,
    gen_case_bodies, gen_case_tests, gen_catch, gen_condition, gen_do_while, gen_expr_stmt, gen_for,
    gen_for_in, gen_for_of, gen_for_update, gen_if_stmt, gen_item, gen_length_test, gen_next_item,
    gen_stmt, gen_stmts, gen_switch, gen_test, gen_throw, gen_try, gen_while, if_stmt_rule,
    parameters, patch_cases, pattern_names, stmt_rule, stmts_rule, switch_rule, test_rule,
    throw_rule, try_rule, var_names, while_rule,
};
use crate::scope_names::{collect_pattern_names, collect_var_names};

verus! {

impl Compiler {
    /// Give the variables that `var` declares their slots before anything else.
    pub(crate) fn hoist_var_declarations(&mut self, stmts: &Vec<Statement>)
        ensures
            final(self)@ == declare_all(old(self)@, var_names(*stmts, 0), 0),
    {
        let mut names: Vec<String> = Vec::new();
        collect_var_names(stmts, &mut names);
        assert(texts(Seq::<String>::empty()) =~= Seq::empty());
        assert(texts(names@) =~= var_names(*stmts, 0));
        self.declare_all(&names)
    }

    pub(crate) fn declare_all(&mut self, names: &Vec<String>)
        ensures
            final(self)@ == declare_all(old(self)@, texts(names@), 0),
    {
        proof {
            reveal(declare_all);
        }
        let mut i: usize = 0;
        while i < names.len()
            invariant
                0 <= i <= names@.len(),
                declare_all(self@, texts(names@), i as int) == declare_all(
                    old(self)@,
                    texts(names@),
                    0,
                ),
            decreases names@.len() - i,
        {
            proof {
                reveal(declare_all);
            }
            assert(texts(names@)[i as int] == names@[i as int]@);
            self.ensure_binding_slot(names[i].as_str());
            i += 1;
        }
    }

    pub(crate) fn compile_statements(&mut self, stmts: &Vec<Statement>)
        ensures
            final(self)@ == gen_stmts(old(self)@, *stmts, 0),
        decreases *stmts, 1int, stmts@.len(),
    {
        proof {
            reveal(stmts_rule);
            assert(gen_stmts(old(self)@, *stmts, 0) == stmts_rule(old(self)@, *stmts, 0));
        }
        let mut i: usize = 0;
        while i < stmts.len()
            invariant
                0 <= i <= stmts@.len(),
                gen_stmts(self@, *stmts, i as int) == gen_stmts(old(self)@, *stmts, 0),
            decreases stmts@.len() - i,
        {
            proof {
                reveal(stmts_rule);
                assert(gen_stmts(self@, *stmts, i as int) == stmts_rule(self@, *stmts, i as int));
            }
            self.compile_statement(&stmts[i]);
            i += 1;
        }
        proof {
            assert(gen_stmts(self@, *stmts, i as int) == stmts_rule(self@, *stmts, i as int));
        }
    }

    pub(crate) fn compile_statement(&mut self, stmt: &Statement)
        ensures
            final(self)@ == gen_stmt(old(self)@, *stmt),
        decreases *stmt, 10int, 0int,
    {
        proof {
            assert(gen_stmt(old(self)@, *stmt) == if old(self)@.err is Some { old(self)@ } else { stmt_rule(old(self)@.clear_elided(), *stmt) }) by { reveal(stmt_rule); }
        }
        if self.failed() {
            return ;
        }
        self.clear_elided();
        self.compile_statement_rule(stmt)
    }

    pub(crate) fn compile_statement_rule(&mut self, stmt: &Statement)
        ensures
            final(self)@ == stmt_rule(old(self)@, *stmt),
        decreases *stmt, 9int, 0int,
    {
        proof {
            reveal(stmt_rule);
        }
        match stmt {
            Statement::Let { name, value, kind } => {
                if *kind == VariableKind::Const {
                    self.declare_const(name);
                }
                let idx: u16 = self.ensure_binding_slot(name.as_str());
                self.compile_expression(value);
                if self.in_function() {
                    let global: u16 = self.ensure_global_slot(name.as_str());
                    self.emit1(Opcode::OpSetLocal, idx);
                    self.emit1(Opcode::OpGetLocal, idx);
                    self.emit1(Opcode::OpSetGlobal, global);
                } else {
                    self.emit1(Opcode::OpSetGlobal, idx);
                }
            },
            Statement::LetPattern { pattern, value, kind } => {
                if *kind == VariableKind::Const {
                    let mut names: Vec<String> = Vec::new();
                    collect_pattern_names(pattern, &mut names);
                    assert(texts(Seq::<String>::empty()) =~= Seq::empty());
                    assert(texts(names@) =~= pattern_names(*pattern));
                    self.declare_consts(&names);
                }
                self.compile_expression(value);
                self.assign_pattern_from_top(pattern)
            },
            Statement::Return { value } => {
                self.compile_expression(value);
                self.emit0(Opcode::OpReturnValue);
            },
            Statement::ReturnVoid => {
                self.emit0(Opcode::OpReturn);
            },
            Statement::Expression(e) => self.compile_expression_statement(e),
            Statement::Block(body) => self.compile_statements(body),
            Statement::MultiLet(body) => self.compile_statements(body),
            Statement::While { .. } => self.compile_while_statement(stmt, None),
            Statement::DoWhile { .. } => self.compile_do_while_statement(stmt, None),
            Statement::For { .. } => self.compile_for_statement(stmt, None),
            Statement::ForOf { .. } => self.compile_for_of_statement(stmt, None),
            Statement::ForIn { .. } => self.compile_for_in_statement(stmt, None),
            Statement::Switch { .. } => self.compile_switch_statement(stmt, None),
            Statement::FunctionDecl { name, parameters, body, is_async, is_generator } => {
                let f = self.compile_function_literal(
                    parameters,
                    body,
                    true,
                    *is_async,
                    *is_generator,
                );
                self.push_object(Object::CompiledFunction(Box::new(f)));
                self.assign_identifier_from_top(name.as_str())
            },
            Statement::ClassDecl { name, extends, members } => {
                self.compile_class_value(name, extends, members);
                match name {
                    Some(n) => self.assign_identifier_from_top(n.as_str()),
                    None => {},
                }
            },
            Statement::Throw { value } => self.compile_throw_statement(value),
            Statement::Try { .. } => self.compile_try_statement(stmt),
            Statement::Labeled { label, statement } => {
                let label = Some(label.as_str());
                match &**statement {
                    Statement::While { .. } => self.compile_while_statement(statement, label),
                    Statement::DoWhile { .. } => self.compile_do_while_statement(statement, label),
                    Statement::Switch { .. } => self.compile_switch_statement(statement, label),
                    Statement::For { .. } => self.compile_for_statement(statement, label),
                    Statement::ForOf { .. } => self.compile_for_of_statement(statement, label),
                    Statement::ForIn { .. } => self.compile_for_in_statement(statement, label),
                    _ => self.fail("only loop statements can be labeled".to_owned()),
                }
            },
            Statement::Break { label } => match label {
                Some(l) => self.jump_from_loop(Some(l.as_str()), true),
                None => self.jump_from_loop(None, true),
            },
            Statement::Continue { label } => match label {
                Some(l) => self.jump_from_loop(Some(l.as_str()), false),
                None => self.jump_from_loop(None, false),
            },
            Statement::Debugger => {},
        }
    }

    pub(crate) fn compile_expression_statement(&mut self, e: &Expression)
        ensures
            final(self)@ == gen_expr_stmt(old(self)@, *e),
        decreases *e, 8int, 0int,
    {
        proof {
            reveal(expr_stmt_rule);
            assert(gen_expr_stmt(old(self)@, *e) == expr_stmt_rule(old(self)@, *e));
        }
        if let Expression::If { .. } = e {
            return self.compile_if_statement(e);
        }
        let start: usize = self.here();
        if let Some((slot, prop, amount, cache)) = self.try_fuse_add_const_to_global_property(e) {
            self.emit4(Opcode::OpAddConstToGlobalProperty, slot, prop, amount, cache);
            return ;
        }
        if let Some(operands) = self.try_fuse_add_global_props_to_global_prop(e) {
            self.emit(Opcode::OpAddGlobalPropsToGlobalProp, operands.as_slice());
            return ;
        }
        if let Some((slot, idx, op)) = self.try_fuse_increment(e) {
            self.emit2(op, slot, idx);
            let get = if op == Opcode::OpIncrementLocal {
                Opcode::OpGetLocal
            } else {
                Opcode::OpGetGlobal
            };
            self.set_elided(get, slot);
            return ;
        }
        if let Some((target, source)) = self.try_fuse_accumulate_global(e) {
            self.emit2(Opcode::OpAccumulateGlobal, target, source);
            self.set_elided(Opcode::OpGetGlobal, target);
            return ;
        }
        proof {
            reveal(is_name_assignment);
        }
        let direct: bool = match e {
            Expression::Assign { left, .. } => match &**left {
                Expression::Identifier(_) => true,
                _ => false,
            },
            _ => false,
        };
        self.compile_expression(e);
        self.drop_result(direct, start);
    }

    /// The test of an `if`. Returns the jump that is taken when it fails, and
    /// where in its operands the target stands.
    pub(crate) fn compile_condition(&mut self, c: &Expression) -> (r: (usize, usize))
        ensures
            (final(self)@, r.0, r.1 as int) == gen_condition(old(self)@, *c),
            r.1 <= 6,
        decreases *c, 9int, 0int,
    {
        proof {
            reveal(condition_rule);
            assert(gen_condition(old(self)@, *c) == condition_rule(old(self)@, *c));
        }
        match self.try_fuse_mod_strict_eq_const(c) {
            Some((slot, modulus, expected)) => {
                let pos: usize = self.emit4(
                    Opcode::OpModGlobalConstStrictEqConstJump,
                    slot,
                    modulus,
                    expected,
                    PLACEHOLDER,
                );
                (pos, 6)
            },
            None => self.compile_test(c),
        }
    }

    /// The test of a loop, in the same terms.
    pub(crate) fn compile_test(&mut self, c: &Expression) -> (r: (usize, usize))
        ensures
            (final(self)@, r.0, r.1 as int) == gen_test(old(self)@, *c),
            r.1 <= 6,
        decreases *c, 8int, 0int,
    {
        proof {
            reveal(test_rule);
            assert(gen_test(old(self)@, *c) == test_rule(old(self)@, *c));
        }
        match self.try_fuse_compare_const(c) {
            Some((slot, idx, op)) => {
                let pos: usize = self.emit3(op, slot, idx, PLACEHOLDER);
                (pos, 4)
            },
            None => {
                self.compile_expression(c);
                let pos: usize = self.emit1(Opcode::OpJumpNotTruthy, PLACEHOLDER);
                (pos, 0)
            },
        }
    }

    /// Compile an `if` whose value is not used. Nothing is left on the stack.
    pub(crate) fn compile_if_statement(&mut self, e: &Expression)
        ensures
            final(self)@ == gen_if_stmt(old(self)@, *e),
        decreases *e, 4int, 0int,
    {
        proof {
            reveal(if_stmt_rule);
            assert(gen_if_stmt(old(self)@, *e) == if_stmt_rule(old(self)@, *e));
        }
        match e {
            Expression::If { condition, consequence, alternative } => {
                let (jump, offset) = self.compile_condition(condition);
                self.compile_statements(consequence);
                match alternative {
                    Some(alt) => {
                        let over: usize = self.emit1(Opcode::OpJump, PLACEHOLDER);
                        let here: usize = self.here();
                        self.change_operand_at(jump, offset, here);
                        self.compile_statements(alt);
                        let end: usize = self.here();
                        self.change_operand(over, end);
                    },
                    None => {
                        let here: usize = self.here();
                        self.change_operand_at(jump, offset, here);
                    },
                }
            },
            _ => {},
        }
    }

    pub(crate) fn compile_while_statement(&mut self, stmt: &Statement, label: Option<&str>)
        ensures
            final(self)@ == gen_while(old(self)@, *stmt, label_text(label)),
        decreases *stmt, 4int, 0int,
    {
        proof {
            reveal(while_rule);
            assert(gen_while(old(self)@, *stmt, label_text(label)) == while_rule(old(self)@, *stmt, label_text(label)));
        }
        match stmt {
            Statement::While { condition, body } => {
                let start: usize = self.here();
                let (jump, offset) = self.compile_test(condition);
                self.open_loop(label, start);
                self.compile_statements(body);
                self.jump_back(start);
                let end: usize = self.here();
                self.change_operand_at(jump, offset, end);
                self.close_loop(end);
                self.emit0(Opcode::OpNull);
            },
            _ => {},
        }
    }

    pub(crate) fn compile_do_while_statement(&mut self, stmt: &Statement, label: Option<&str>)
        ensures
            final(self)@ == gen_do_while(old(self)@, *stmt, label_text(label)),
        decreases *stmt, 4int, 0int,
    {
        proof {
            reveal(do_while_rule);
            assert(gen_do_while(old(self)@, *stmt, label_text(label)) == do_while_rule(old(self)@, *stmt, label_text(label)));
        }
        match stmt {
            Statement::DoWhile { body, condition } => {
                let start: usize = self.here();
                self.open_loop(label, start);
                self.compile_statements(body);
                self.continue_here();
                self.compile_expression(condition);
                let exit: usize = self.emit1(Opcode::OpJumpNotTruthy, PLACEHOLDER);
                self.emit1(Opcode::OpJump, start as u16);
                let end: usize = self.here();
                self.change_operand(exit, end);
                self.close_loop(end);
                self.emit0(Opcode::OpNull);
            },
            _ => {},
        }
    }

    pub(crate) fn compile_for_statement(&mut self, stmt: &Statement, label: Option<&str>)
        ensures
            final(self)@ == gen_for(old(self)@, *stmt, label_text(label)),
        decreases *stmt, 4int, 0int,
    {
        proof {
            reveal(for_rule);
            assert(gen_for(old(self)@, *stmt, label_text(label)) == for_rule(old(self)@, *stmt, label_text(label)));
        }
        match stmt {
            Statement::For { init, condition, update, body } => {
                if let Some(first) = init {
                    self.compile_statement(first);
                    self.remove_last_pop();
                }
                let start: usize = self.here();
                let (jump, offset) = match condition {
                    Some(c) => self.compile_test(c),
                    None => {
                        self.emit0(Opcode::OpTrue);
                        let pos: usize = self.emit1(Opcode::OpJumpNotTruthy, PLACEHOLDER);
                        (pos, 0)
                    },
                };
                self.open_loop(label, start);
                self.compile_statements(body);
                self.continue_here();
                match update {
                    Some(u) => self.compile_for_update(u, start),
                    None => {
                        self.emit1(Opcode::OpJump, start as u16);
                    },
                }
                let end: usize = self.here();
                self.change_operand_at(jump, offset, end);
                self.close_loop(end);
                self.emit0(Opcode::OpNull);
            },
            _ => {},
        }
    }

    pub(crate) fn compile_for_update(&mut self, update: &Expression, start: usize)
        ensures
            final(self)@ == gen_for_update(old(self)@, *update, start),
        decreases *update, 8int, 0int,
    {
        proof {
            reveal(for_update_rule);
            assert(gen_for_update(old(self)@, *update, start) == for_update_rule(old(self)@, *update, start));
        }
        match self.try_fuse_increment(update) {
            Some((slot, idx, op)) => {
                if op == Opcode::OpIncrementGlobal {
                    self.emit3(Opcode::OpIncrementGlobalAndJump, slot, idx, start as u16);
                } else {
                    self.emit2(op, slot, idx);
                    self.emit1(Opcode::OpJump, start as u16);
                }
            },
            None => {
                self.compile_expression(update);
                self.emit0(Opcode::OpPop);
                self.emit1(Opcode::OpJump, start as u16);
            },
        }
    }

    pub(crate) fn compile_length_test(&mut self, index: &str, source: &str) -> (pos: usize)
        ensures
            final(self)@ == gen_length_test(old(self)@, index@, source@),
            pos == final(self)@.last_position,
    {
        proof {
            reveal(gen_length_test);
            reveal(CompilerView::emit1);
            reveal(CompilerView::emit);
        }
        self.compile_identifier(index);
        self.compile_property(source, "length");
        self.emit0(Opcode::OpLessThan);
        self.emit1(Opcode::OpJumpNotTruthy, PLACEHOLDER)
    }

    pub(crate) fn compile_item(&mut self, index: &str, source: &str)
        ensures
            final(self)@ == gen_item(old(self)@, index@, source@),
    {
        proof {
            reveal(gen_item);
        }
        self.compile_identifier(source);
        self.compile_identifier(index);
        self.emit0(Opcode::OpIndex);
    }

    pub(crate) fn compile_next_item(&mut self, index: &str, start: usize)
        ensures
            final(self)@ == gen_next_item(old(self)@, index@, start),
    {
        proof {
            reveal(gen_next_item);
        }
        self.step_name(index, "+=");
        self.emit0(Opcode::OpPop);
        self.emit1(Opcode::OpJump, start as u16);
    }

    pub(crate) fn compile_for_of_statement(&mut self, stmt: &Statement, label: Option<&str>)
        ensures
            final(self)@ == gen_for_of(old(self)@, *stmt, label_text(label)),
        decreases *stmt, 4int, 0int,
    {
        proof {
            reveal(for_of_rule);
            assert(gen_for_of(old(self)@, *stmt, label_text(label)) == for_of_rule(old(self)@, *stmt, label_text(label)));
        }
        match stmt {
            Statement::ForOf { binding, iterable, body } => {
                let source_name = self.make_temp_name("iter");
                let index_name = self.make_temp_name("i");
                let source = source_name.as_str();
                let index = index_name.as_str();
                self.compile_expression(iterable);
                self.declare_null(source);
                self.remove_last_pop();
                self.assign_identifier_from_top(source);
                self.push_int(0);
                self.declare_null(index);
                self.remove_last_pop();
                self.assign_identifier_from_top(index);
                let start: usize = self.here();
                let jump: usize = self.compile_length_test(index, source);
                self.open_loop(label, start);
                self.compile_item(index, source);
                match binding {
                    ForBinding::Identifier(name) => {
                        self.declare_null(name.as_str());
                        self.remove_last_pop();
                        self.assign_identifier_from_top(name.as_str());
                    },
                    ForBinding::Pattern(p) => {
                        self.assign_pattern_from_top(p);
                    },
                }
                self.compile_statements(body);
                self.continue_here();
                self.compile_next_item(index, start);
                let end: usize = self.here();
                self.change_operand(jump, end);
                self.close_loop(end);
                self.emit0(Opcode::OpNull);
            },
            _ => {},
        }
    }

    pub(crate) fn compile_for_in_statement(&mut self, stmt: &Statement, label: Option<&str>)
        ensures
            final(self)@ == gen_for_in(old(self)@, *stmt, label_text(label)),
        decreases *stmt, 4int, 0int,
    {
        proof {
            reveal(for_in_rule);
            assert(gen_for_in(old(self)@, *stmt, label_text(label)) == for_in_rule(old(self)@, *stmt, label_text(label)));
        }
        match stmt {
            Statement::ForIn { var_name, iterable, body } => {
                let source_name = self.make_temp_name("keys");
                let index_name = self.make_temp_name("ki");
                let source = source_name.as_str();
                let index = index_name.as_str();
                self.compile_expression(iterable);
                self.emit0(Opcode::OpGetKeysIterator);
                self.assign_identifier_from_top(source);
                self.push_int(0);
                self.assign_identifier_from_top(index);
                let start: usize = self.here();
                let jump: usize = self.compile_length_test(index, source);
                self.open_loop(label, start);
                self.compile_item(index, source);
                self.assign_identifier_from_top(var_name.as_str());
                self.compile_statements(body);
                self.remove_last_pop();
                self.continue_here();
                self.compile_next_item(index, start);
                let end: usize = self.here();
                self.change_operand(jump, end);
                self.close_loop(end);
                self.emit0(Opcode::OpNull);
            },
            _ => {},
        }
    }

    pub(crate) fn compile_case_tests(&mut self, cases: &Vec<SwitchCase>, subject: Slot) -> (r: Vec<usize>)
        ensures
            (final(self)@, r@) == gen_case_tests(old(self)@, *cases, subject, 0, Seq::empty()),
            r@.len() == tested(cases@, cases@.len() as int),
        decreases *cases, 1int, cases@.len(),
    {
        proof {
            reveal(case_tests_rule);
            assert(gen_case_tests(old(self)@, *cases, subject, 0, Seq::empty()) == case_tests_rule(old(self)@, *cases, subject, 0, Seq::empty()));
        }
        let mut jumps: Vec<usize> = Vec::new();
        let mut i: usize = 0;
        while i < cases.len()
            invariant
                0 <= i <= cases@.len(),
                jumps@.len() == tested(cases@, i as int),
                gen_case_tests(self@, *cases, subject, i as int, jumps@) == gen_case_tests(
                    old(self)@,
                    *cases,
                    subject,
                    0,
                    Seq::empty(),
                ),
            decreases cases@.len() - i,
        {
            proof {
                reveal(case_tests_rule);
                assert(gen_case_tests(self@, *cases, subject, i as int, jumps@) == case_tests_rule(self@, *cases, subject, i as int, jumps@));
            }
            assert(decreases_to!(*cases => cases@[i as int]));
            if let Some(test) = &cases[i].test {
                self.load(subject);
                self.compile_expression(test);
                self.emit0(Opcode::OpStrictEqual);
                let skip: usize = self.emit1(Opcode::OpJumpNotTruthy, PLACEHOLDER);
                let jump: usize = self.emit1(Opcode::OpJump, PLACEHOLDER);
                let here: usize = self.here();
                self.change_operand(skip, here);
                jumps.push(jump);
            }
            i += 1;
        }
        proof {
            assert(gen_case_tests(self@, *cases, subject, i as int, jumps@) == case_tests_rule(self@, *cases, subject, i as int, jumps@));
        }
        jumps
    }

    pub(crate) fn compile_case_bodies(&mut self, cases: &Vec<SwitchCase>) -> (r: Vec<usize>)
        ensures
            (final(self)@, r@) == gen_case_bodies(old(self)@, *cases, 0, Seq::empty()),
            r@.len() == cases@.len(),
        decreases *cases, 1int, cases@.len(),
    {
        proof {
            reveal(case_bodies_rule);
            assert(gen_case_bodies(old(self)@, *cases, 0, Seq::empty()) == case_bodies_rule(old(self)@, *cases, 0, Seq::empty()));
        }
        let mut starts: Vec<usize> = Vec::new();
        let mut i: usize = 0;
        while i < cases.len()
            invariant
                0 <= i <= cases@.len(),
                starts@.len() == i,
                gen_case_bodies(self@, *cases, i as int, starts@) == gen_case_bodies(
                    old(self)@,
                    *cases,
                    0,
                    Seq::empty(),
                ),
            decreases cases@.len() - i,
        {
            proof {
                reveal(case_bodies_rule);
                assert(gen_case_bodies(self@, *cases, i as int, starts@) == case_bodies_rule(self@, *cases, i as int, starts@));
            }
            assert(decreases_to!(*cases => cases@[i as int]));
            starts.push(self.here());
            self.compile_statements(&cases[i].consequent);
            i += 1;
        }
        proof {
            assert(gen_case_bodies(self@, *cases, i as int, starts@) == case_bodies_rule(self@, *cases, i as int, starts@));
        }
        starts
    }

    pub(crate) fn patch_case_jumps(&mut self, cases: &Vec<SwitchCase>, jumps: &Vec<usize>, starts: &Vec<usize>)
        requires
            jumps@.len() == tested(cases@, cases@.len() as int),
            starts@.len() == cases@.len(),
        ensures
            final(self)@ == patch_cases(old(self)@, cases@, 0, jumps@, 0, starts@),
    {
        proof {
            reveal(patch_cases);
        }
        let mut i: usize = 0;
        let mut j: usize = 0;
        while i < cases.len()
            invariant
                0 <= i <= cases@.len(),
                j == tested(cases@, i as int),
                j <= i,
                jumps@.len() == tested(cases@, cases@.len() as int),
                starts@.len() == cases@.len(),
                patch_cases(self@, cases@, i as int, jumps@, j as int, starts@) == patch_cases(
                    old(self)@,
                    cases@,
                    0,
                    jumps@,
                    0,
                    starts@,
                ),
            decreases cases@.len() - i,
        {
            proof {
                reveal(patch_cases);
            }
            proof {
                lemma_tested_grows(cases@, i + 1, cases@.len() as int);
            }
            if cases[i].test.is_some() {
                self.change_operand(jumps[j], starts[i]);
                j += 1;
            }
            i += 1;
        }
    }

    pub(crate) fn compile_switch_statement(&mut self, stmt: &Statement, label: Option<&str>)
        ensures
            final(self)@ == gen_switch(old(self)@, *stmt, label_text(label)),
        decreases *stmt, 4int, 0int,
    {
        proof {
            reveal(switch_rule);
            assert(gen_switch(old(self)@, *stmt, label_text(label)) == switch_rule(old(self)@, *stmt, label_text(label)));
        }
        match stmt {
            Statement::Switch { discriminant, cases } => {
                self.open_loop(label, 0);
                let subject_name = self.make_temp_name("switch");
                self.compile_expression(discriminant);
                let idx: u16 = self.ensure_binding_slot(subject_name.as_str());
                let subject = if self.in_function() {
                    Slot::Local(idx)
                } else {
                    Slot::Global(idx)
                };
                self.store(subject);
                let jumps = self.compile_case_tests(cases, subject);
                let otherwise: usize = self.emit1(Opcode::OpJump, PLACEHOLDER);
                let starts = self.compile_case_bodies(cases);
                let end: usize = self.here();
                self.patch_case_jumps(cases, &jumps, &starts);
                match find_default_case(cases) {
                    Some(d) => self.change_operand(otherwise, starts[d]),
                    None => self.change_operand(otherwise, end),
                }
                self.close_switch(end);
            },
            _ => {},
        }
    }

    pub(crate) fn compile_throw_statement(&mut self, value: &Expression)
        ensures
            final(self)@ == gen_throw(old(self)@, *value),
        decreases *value, 8int, 0int,
    {
        proof {
            reveal(throw_rule);
            assert(gen_throw(old(self)@, *value) == throw_rule(old(self)@, *value));
        }
        self.compile_expression(value);
        self.throw_top()
    }

    /// Compile a `catch` block.
    fn compile_catch(&mut self, stmt: &Statement, exception: &String, thrown: &str)
        ensures
            final(self)@ == gen_catch(old(self)@, *stmt, exception@, thrown@),
        decreases *stmt, 3int, 0int,
    {
        proof {
            reveal(catch_rule);
            assert(gen_catch(old(self)@, *stmt, exception@, thrown@) == catch_rule(
                old(self)@,
                *stmt,
                exception@,
                thrown@,
            ));
        }
        match stmt {
            Statement::Try { catch_param, catch_block, finally_block, .. } => match catch_block {
                Some(block) => {
                    if finally_block.is_some() {
                        self.open_try(exception);
                    }
                    if let Some(p) = catch_param {
                        self.compile_identifier(exception.as_str());
                        self.assign_identifier_from_top(p.as_str());
                    }
                    self.compile_statements(block);
                    self.remove_last_pop();
                    if finally_block.is_some() {
                        let over: usize = self.emit1(Opcode::OpJump, PLACEHOLDER);
                        self.close_try();
                        self.emit0(Opcode::OpTrue);
                        self.assign_identifier_from_top(thrown);
                        let here: usize = self.here();
                        self.change_operand(over, here);
                    }
                },
                None => if finally_block.is_some() {
                    self.emit0(Opcode::OpTrue);
                    self.assign_identifier_from_top(thrown);
                },
            },
            _ => {},
        }
    }

    pub(crate) fn compile_try_statement(&mut self, stmt: &Statement)
        ensures
            final(self)@ == gen_try(old(self)@, *stmt),
        decreases *stmt, 4int, 0int,
    {
        proof {
            reveal(try_rule);
            assert(gen_try(old(self)@, *stmt) == try_rule(old(self)@, *stmt));
        }
        match stmt {
            Statement::Try { try_block, finally_block, .. } => {
                let exception = self.make_temp_name("exc");
                self.emit0(Opcode::OpNull);
                self.assign_identifier_from_top(exception.as_str());
                let mut thrown = String::new();
                if finally_block.is_some() {
                    thrown = self.make_temp_name("exc_flag");
                    self.emit0(Opcode::OpFalse);
                    self.assign_identifier_from_top(thrown.as_str());
                }
                self.open_try(&exception);
                self.compile_statements(try_block);
                self.remove_last_pop();
                let over: usize = self.emit1(Opcode::OpJump, PLACEHOLDER);
                self.close_try();
                self.compile_catch(stmt, &exception, thrown.as_str());
                let finally_start: usize = self.here();
                match finally_block {
                    Some(block) => {
                        self.compile_statements(block);
                        self.remove_last_pop();
                        self.compile_identifier(thrown.as_str());
                        let skip: usize = self.emit1(Opcode::OpJumpNotTruthy, PLACEHOLDER);
                        self.compile_identifier(exception.as_str());
                        self.throw_top();
                        let here: usize = self.here();
                        self.change_operand(skip, here);
                        self.change_operand(over, finally_start);
                    },
                    None => {
                        let here: usize = self.here();
                        self.change_operand(over, here);
                    },
                }
                self.emit0(Opcode::OpNull);
            },
            _ => {},
        }
    }
}

/// How many of the first `n` cases have a test.
pub open spec fn tested(cases: Seq<SwitchCase>, n: int) -> nat
    decreases n,
{
    if n <= 0 {
        0
    } else {
        tested(cases, n - 1) + if cases[n - 1].test is Some {
            1nat
        } else {
            0
        }
    }
}

pub(crate) proof fn lemma_tested_grows(cases: Seq<SwitchCase>, m: int, n: int)
    requires
        m <= n,
    ensures
        tested(cases, m) <= tested(cases, n),
    decreases n - m,
{
    if m < n {
        lemma_tested_grows(cases, m, n - 1);
    }
}

/// The position of the last case without a test.
pub(crate) fn find_default_case(cases: &Vec<SwitchCase>) -> (r: Option<usize>)
    ensures
        match r {
            Some(d) => d < cases@.len() && default_case(cases@, cases@.len() as int) == Some(
                d as int,
            ),
            None => default_case(cases@, cases@.len() as int) is None,
        },
{
    let mut n: usize = cases.len();
    while n > 0
        invariant
            n <= cases@.len(),
            default_case(cases@, n as int) == default_case(cases@, cases@.len() as int),
        decreases n,
    {
        if cases[n - 1].test.is_none() {
            return Some(n - 1);
        }
        n -= 1;
    }
    None
}

} // verus!
