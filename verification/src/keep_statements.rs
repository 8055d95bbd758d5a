//! What statements of the stack compiler keep.
use vstd::prelude::*;

use crate::ast::{Expression, ForBinding, Statement, SwitchCase};
use crate::code::Opcode;
use crate::codegen::{
    fuse_accumulate, fuse_compare, fuse_increment, fuse_mod_eq, fuse_property_increment,
    fuse_property_sum, is_const, CompilerView, PLACEHOLDER, Slot,
};
use crate::keep_assignments::keeps_pattern;
use crate::keep_expressions::keeps_expr;
use crate::keep_functions::{keeps_class_value, keeps_function};
use crate::keep::{rule_gen_item, rule_gen_length_test, rule_gen_next_item};
use crate::rules::{
    case_bodies_rule, case_tests_rule, catch_rule, condition_rule, default_case, do_while_rule,
    expr_stmt_rule, for_in_rule, for_of_rule, for_rule, for_update_rule, gen_case_bodies,
    gen_case_tests, gen_catch, gen_condition, gen_do_while, gen_expr, gen_expr_stmt, gen_for,
    gen_for_in, gen_for_of, gen_for_update, gen_if_stmt, gen_item, gen_length_test, gen_pattern,
    gen_stmt, gen_stmts, gen_switch, gen_test, gen_throw, gen_try, gen_while, if_stmt_rule,
    parameters, patch_cases, pattern_names, stmt_rule, stmts_rule, switch_rule, test_rule,
    throw_rule, try_rule, while_rule,
};
use crate::sound::{
    are_jumps, grows, growth_is_sound, is_jump, is_sound, jump_stays, jumps_stay, lemma_grows_all,
    lemma_grows_self, lemma_grows_sound, step_after_temp, step_assign_top, step_binding_slot,
    step_clear_elided, step_close_loop, step_close_switch, step_close_try, step_continue_here,
    step_declare_const, step_declare_consts, step_declare_null, step_drop_result, step_emit,
    step_emit0, step_emit1, step_fail, step_fuse_compare, step_fuse_increment, step_fuse_mod_eq,
    step_fuse_property_increment, step_fuse_property_sum, step_global_slot, step_jump_back,
    step_jump_from_loop, step_load, step_open_loop, step_open_try, step_patch, step_push_int,
    step_push_name, step_push_object, step_remove_last_pop, step_set_elided, step_store,
    step_throw_top,
};

verus! {

/// The number of tests among the cases from position `i` on.
pub(crate) open spec fn tests_from(cases: Seq<SwitchCase>, i: int) -> int
    decreases cases.len() - i,
{
    if i < 0 || i >= cases.len() {
        0
    } else {
        tests_from(cases, i + 1) + if cases[i].test is Some {
            1int
        } else {
            0
        }
    }
}

proof fn lemma_tests(cases: Seq<SwitchCase>, i: int)
    ensures
        tests_from(cases, i) >= 0,
    decreases cases.len() - i,
{
    if 0 <= i < cases.len() {
        lemma_tests(cases, i + 1);
    }
}

proof fn keeps_patch_cases(
    b: CompilerView,
    s: CompilerView,
    cases: Seq<SwitchCase>,
    i: int,
    jumps: Seq<usize>,
    j: int,
    starts: Seq<usize>,
)
    requires
        grows(b, s),
        are_jumps(s, jumps),
        0 <= i,
        0 <= j,
        j + tests_from(cases, i) <= jumps.len(),
    ensures
        grows(b, patch_cases(s, cases, i, jumps, j, starts)),
    decreases cases.len() - i,
{
    reveal(patch_cases);
    if i < cases.len() {
        if cases[i].test is Some {
            lemma_tests(cases, i + 1);
            let t = s.patch(jumps[j], 0, starts[i]);
            lemma_grows_sound(b, s);
            step_patch(b, s, jumps[j], 0, starts[i]);
            step_patch(s, s, jumps[j], 0, starts[i]);
            jumps_stay(s, t, jumps);
            keeps_patch_cases(b, t, cases, i + 1, jumps, j + 1, starts);
        } else {
            keeps_patch_cases(b, s, cases, i + 1, jumps, j, starts);
        }
    }
}

pub(crate) proof fn keeps_stmts(s: CompilerView, stmts: Vec<Statement>, i: int)
    requires
        is_sound(s),
    ensures
        ({
            let r = gen_stmts(s, stmts, i);
            &&& grows(s, r)
            &&& forall|a: CompilerView| #[trigger] grows(a, s) ==> grows(a, r)
        }),
    decreases stmts, 1int, stmts@.len() - i, 1int,
{
    broadcast use growth_is_sound;

    lemma_grows_self(s);
    let first = s;
    let r = gen_stmts(s, stmts, i);
    reveal(stmts_rule);
    assert(r == stmts_rule(s, stmts, i));
    if 0 <= i < stmts@.len() {
        keeps_stmt(s, stmts@[i]);
        keeps_stmts(gen_stmt(s, stmts@[i]), stmts, i + 1);
    }
    assert(grows(first, r));
    lemma_grows_all(first, r);
}

pub(crate) proof fn keeps_stmt(s: CompilerView, stmt: Statement)
    requires
        is_sound(s),
    ensures
        ({
            let r = gen_stmt(s, stmt);
            &&& grows(s, r)
            &&& forall|a: CompilerView| #[trigger] grows(a, s) ==> grows(a, r)
        }),
    decreases stmt, 10int, 0int, 0int,
{
    broadcast use {
        growth_is_sound,
        step_emit0,
        step_emit1,
        step_fail,
        step_declare_const,
        step_declare_consts,
        step_global_slot,
        step_binding_slot,
        step_push_object,
        step_assign_top,
        step_jump_from_loop,
        step_clear_elided,
    };

    lemma_grows_self(s);
    let first = s;
    let r = gen_stmt(s, stmt);
    reveal(stmt_rule);
    let s = s.clear_elided();
    match stmt {
        Statement::Let { name, value, kind } => {
            let s = if is_const(kind) {
                s.declare_const(name@)
            } else {
                s
            };
            let (s, _) = s.binding_slot(name@);
            keeps_expr(s, value);
        },
        Statement::LetPattern { pattern, value, kind } => {
            let s = if is_const(kind) {
                s.declare_consts(pattern_names(pattern))
            } else {
                s
            };
            keeps_expr(s, value);
            keeps_pattern(gen_expr(s, value), pattern);
        },
        Statement::Return { value } => keeps_expr(s, value),
        Statement::Expression(e) => keeps_expr_stmt(s, e),
        Statement::Block(body) => keeps_stmts(s, body, 0),
        Statement::MultiLet(body) => keeps_stmts(s, body, 0),
        Statement::While { .. } => keeps_while(s, stmt, None),
        Statement::DoWhile { .. } => keeps_do_while(s, stmt, None),
        Statement::For { .. } => keeps_for(s, stmt, None),
        Statement::ForOf { .. } => keeps_for_of(s, stmt, None),
        Statement::ForIn { .. } => keeps_for_in(s, stmt, None),
        Statement::Switch { .. } => keeps_switch(s, stmt, None),
        Statement::FunctionDecl { name, parameters, body, is_async, is_generator } => {
            keeps_function(s, parameters, body, true, is_async, is_generator);
        },
        Statement::ClassDecl { name, extends, members } => {
            keeps_class_value(s, name, extends, members);
        },
        Statement::Throw { value } => keeps_throw(s, value),
        Statement::Try { .. } => keeps_try(s, stmt),
        Statement::Labeled { label, statement } => {
            match *statement {
                Statement::While { .. } => keeps_while(s, *statement, Some(label@)),
                Statement::DoWhile { .. } => keeps_do_while(s, *statement, Some(label@)),
                Statement::Switch { .. } => keeps_switch(s, *statement, Some(label@)),
                Statement::For { .. } => keeps_for(s, *statement, Some(label@)),
                Statement::ForOf { .. } => keeps_for_of(s, *statement, Some(label@)),
                Statement::ForIn { .. } => keeps_for_in(s, *statement, Some(label@)),
                _ => {},
            }
        },
        _ => {},
    }
    assert(grows(first, r));
    lemma_grows_all(first, r);
}

pub(crate) proof fn keeps_expr_stmt(s: CompilerView, e: Expression)
    requires
        is_sound(s),
    ensures
        ({
            let r = gen_expr_stmt(s, e);
            &&& grows(s, r)
            &&& forall|a: CompilerView| #[trigger] grows(a, s) ==> grows(a, r)
        }),
    decreases e, 8int, 0int, 1int,
{
    broadcast use {
        growth_is_sound,
        step_emit,
        step_set_elided,
        step_drop_result,
        step_fuse_increment,
        step_fuse_property_increment,
        step_fuse_property_sum,
        jump_stays,
    };

    lemma_grows_self(s);
    let first = s;
    let r = gen_expr_stmt(s, e);
    reveal(expr_stmt_rule);
    assert(r == expr_stmt_rule(s, e));
    if e is If {
        keeps_if_stmt(s, e);
    } else {
        match fuse_property_increment(s, e) {
            (s, None) => {
                match fuse_property_sum(s, e) {
                    (s, None) => {
                        match fuse_increment(s, e) {
                            (s, None) => {
                                match fuse_accumulate(s, e) {
                                    None => keeps_expr(s, e),
                                    _ => {},
                                }
                            },
                            _ => {},
                        }
                    },
                    _ => {},
                }
            },
            _ => {},
        }
    }
    assert(grows(first, r));
    lemma_grows_all(first, r);
}

pub(crate) proof fn keeps_condition(s: CompilerView, c: Expression)
    requires
        is_sound(s),
    ensures
        ({
            let r = gen_condition(s, c);
            &&& grows(s, r.0)
            &&& forall|a: CompilerView| #[trigger] grows(a, s) ==> grows(a, r.0)
            &&& is_jump(r.0, r.1, r.2)
            &&& grows(r.0, r.0)
        }),
    decreases c, 9int, 0int, 1int,
{
    broadcast use {growth_is_sound, step_emit, step_fuse_mod_eq, jump_stays};

    lemma_grows_self(s);
    let first = s;
    let r = gen_condition(s, c);
    reveal(condition_rule);
    assert(r == condition_rule(s, c));
    match fuse_mod_eq(s, c) {
        (s, None) => keeps_test(s, c),
        _ => {},
    }
    assert(grows(first, r.0));
    lemma_grows_all(first, r.0);
    lemma_grows_sound(first, r.0);
}

pub(crate) proof fn keeps_test(s: CompilerView, c: Expression)
    requires
        is_sound(s),
    ensures
        ({
            let r = gen_test(s, c);
            &&& grows(s, r.0)
            &&& forall|a: CompilerView| #[trigger] grows(a, s) ==> grows(a, r.0)
            &&& is_jump(r.0, r.1, r.2)
            &&& grows(r.0, r.0)
        }),
    decreases c, 8int, 0int, 1int,
{
    broadcast use {growth_is_sound, step_emit, step_emit1, step_fuse_compare, jump_stays};

    lemma_grows_self(s);
    let first = s;
    let r = gen_test(s, c);
    reveal(test_rule);
    assert(r == test_rule(s, c));
    match fuse_compare(s, c) {
        (s, None) => keeps_expr(s, c),
        _ => {},
    }
    assert(grows(first, r.0));
    lemma_grows_all(first, r.0);
    lemma_grows_sound(first, r.0);
}

pub(crate) proof fn keeps_if_stmt(s: CompilerView, e: Expression)
    requires
        is_sound(s),
    ensures
        ({
            let r = gen_if_stmt(s, e);
            &&& grows(s, r)
            &&& forall|a: CompilerView| #[trigger] grows(a, s) ==> grows(a, r)
        }),
    decreases e, 4int, 0int, 1int,
{
    broadcast use {growth_is_sound, step_patch, step_emit1, jump_stays};

    lemma_grows_self(s);
    let first = s;
    let r = gen_if_stmt(s, e);
    reveal(if_stmt_rule);
    assert(r == if_stmt_rule(s, e));
    match e {
        Expression::If { condition, consequence, alternative } => {
            keeps_condition(s, *condition);
            let (s, jump, offset) = gen_condition(s, *condition);
            keeps_stmts(s, consequence, 0);
            let s = gen_stmts(s, consequence, 0);
            match alternative {
                Some(alt) => {
                    let s = s.emit1(Opcode::OpJump, PLACEHOLDER);
                    let s = s.patch(jump, offset, s.here());
                    keeps_stmts(s, alt, 0);
                },
                _ => {},
            }
        },
        _ => {},
    }
    assert(grows(first, r));
    lemma_grows_all(first, r);
}

pub(crate) proof fn keeps_while(s: CompilerView, stmt: Statement, label: Option<Seq<char>>)
    requires
        is_sound(s),
    ensures
        ({
            let r = gen_while(s, stmt, label);
            &&& grows(s, r)
            &&& forall|a: CompilerView| #[trigger] grows(a, s) ==> grows(a, r)
        }),
    decreases stmt, 4int, 0int, 1int,
{
    broadcast use {
        growth_is_sound,
        step_patch,
        step_emit0,
        step_open_loop,
        step_close_loop,
        step_jump_back,
        jump_stays,
    };

    lemma_grows_self(s);
    let first = s;
    let r = gen_while(s, stmt, label);
    reveal(while_rule);
    assert(r == while_rule(s, stmt, label));
    match stmt {
        Statement::While { condition, body } => {
            let start = s.here();
            keeps_test(s, condition);
            let (s, _, _) = gen_test(s, condition);
            keeps_stmts(s.open_loop(label, start), body, 0);
        },
        _ => {},
    }
    assert(grows(first, r));
    lemma_grows_all(first, r);
}

pub(crate) proof fn keeps_do_while(s: CompilerView, stmt: Statement, label: Option<Seq<char>>)
    requires
        is_sound(s),
    ensures
        ({
            let r = gen_do_while(s, stmt, label);
            &&& grows(s, r)
            &&& forall|a: CompilerView| #[trigger] grows(a, s) ==> grows(a, r)
        }),
    decreases stmt, 4int, 0int, 1int,
{
    broadcast use {
        growth_is_sound,
        step_patch,
        step_emit0,
        step_emit1,
        step_open_loop,
        step_continue_here,
        step_close_loop,
        jump_stays,
    };

    lemma_grows_self(s);
    let first = s;
    let r = gen_do_while(s, stmt, label);
    reveal(do_while_rule);
    assert(r == do_while_rule(s, stmt, label));
    match stmt {
        Statement::DoWhile { body, condition } => {
            let start = s.here();
            keeps_stmts(s.open_loop(label, start), body, 0);
            let s = gen_stmts(s.open_loop(label, start), body, 0);
            keeps_expr(s.continue_here(), condition);
        },
        _ => {},
    }
    assert(grows(first, r));
    lemma_grows_all(first, r);
}

pub(crate) proof fn keeps_for(s: CompilerView, stmt: Statement, label: Option<Seq<char>>)
    requires
        is_sound(s),
    ensures
        ({
            let r = gen_for(s, stmt, label);
            &&& grows(s, r)
            &&& forall|a: CompilerView| #[trigger] grows(a, s) ==> grows(a, r)
        }),
    decreases stmt, 4int, 0int, 1int,
{
    broadcast use {
        growth_is_sound,
        step_patch,
        step_emit0,
        step_emit1,
        step_open_loop,
        step_continue_here,
        step_close_loop,
        step_remove_last_pop,
        jump_stays,
    };

    lemma_grows_self(s);
    let first = s;
    let r = gen_for(s, stmt, label);
    reveal(for_rule);
    assert(r == for_rule(s, stmt, label));
    match stmt {
        Statement::For { init, condition, update, body } => {
            match init {
                Some(first) => keeps_stmt(s, *first),
                _ => {},
            }
            let s = match init {
                Some(first) => gen_stmt(s, *first).remove_last_pop(),
                None => s,
            };
            let start = s.here();
            match condition {
                Some(c) => keeps_test(s, c),
                _ => {},
            }
            let (s, _, _) = match condition {
                Some(c) => gen_test(s, c),
                None => {
                    let s = s.emit0(Opcode::OpTrue);
                    (s.emit1(Opcode::OpJumpNotTruthy, PLACEHOLDER), s.here(), 0int)
                },
            };
            keeps_stmts(s.open_loop(label, start), body, 0);
            let s = gen_stmts(s.open_loop(label, start), body, 0).continue_here();
            match update {
                Some(u) => keeps_for_update(s, u, start),
                _ => {},
            }
        },
        _ => {},
    }
    assert(grows(first, r));
    lemma_grows_all(first, r);
}

pub(crate) proof fn keeps_for_update(s: CompilerView, update: Expression, start: usize)
    requires
        is_sound(s),
    ensures
        ({
            let r = gen_for_update(s, update, start);
            &&& grows(s, r)
            &&& forall|a: CompilerView| #[trigger] grows(a, s) ==> grows(a, r)
        }),
    decreases update, 8int, 0int, 1int,
{
    broadcast use {growth_is_sound, step_emit, step_emit0, step_emit1, step_fuse_increment};

    lemma_grows_self(s);
    let first = s;
    let r = gen_for_update(s, update, start);
    reveal(for_update_rule);
    assert(r == for_update_rule(s, update, start));
    match fuse_increment(s, update) {
        (s, None) => keeps_expr(s, update),
        _ => {},
    }
    assert(grows(first, r));
    lemma_grows_all(first, r);
}

pub(crate) proof fn keeps_for_of(s: CompilerView, stmt: Statement, label: Option<Seq<char>>)
    requires
        is_sound(s),
    ensures
        ({
            let r = gen_for_of(s, stmt, label);
            &&& grows(s, r)
            &&& forall|a: CompilerView| #[trigger] grows(a, s) ==> grows(a, r)
        }),
    decreases stmt, 4int, 0int, 1int,
{
    broadcast use {
        growth_is_sound,
        step_patch,
        step_emit0,
        step_after_temp,
        step_push_int,
        step_assign_top,
        step_declare_null,
        step_open_loop,
        step_continue_here,
        step_close_loop,
        step_remove_last_pop,
        rule_gen_length_test,
        rule_gen_item,
        rule_gen_next_item,
        jump_stays,
    };

    lemma_grows_self(s);
    let first = s;
    let r = gen_for_of(s, stmt, label);
    reveal(for_of_rule);
    assert(r == for_of_rule(s, stmt, label));
    match stmt {
        Statement::ForOf { binding, iterable, body } => {
            let source = s.temp("iter"@);
            let s = s.after_temp();
            let index = s.temp("i"@);
            keeps_expr(s.after_temp(), iterable);
            let s = gen_expr(s.after_temp(), iterable);
            let s = s.declare_null(source).remove_last_pop().assign_top(source);
            let s = s.push_int(0);
            let s = s.declare_null(index).remove_last_pop().assign_top(index);
            let start = s.here();
            let s = gen_length_test(s, index, source);
            let s = gen_item(s.open_loop(label, start), index, source);
            match binding {
                ForBinding::Pattern(p) => keeps_pattern(s, p),
                _ => {},
            }
            let s = match binding {
                ForBinding::Identifier(name) => s.declare_null(
                    name@,
                ).remove_last_pop().assign_top(name@),
                ForBinding::Pattern(p) => gen_pattern(s, p),
            };
            keeps_stmts(s, body, 0);
        },
        _ => {},
    }
    assert(grows(first, r));
    lemma_grows_all(first, r);
}

pub(crate) proof fn keeps_for_in(s: CompilerView, stmt: Statement, label: Option<Seq<char>>)
    requires
        is_sound(s),
    ensures
        ({
            let r = gen_for_in(s, stmt, label);
            &&& grows(s, r)
            &&& forall|a: CompilerView| #[trigger] grows(a, s) ==> grows(a, r)
        }),
    decreases stmt, 4int, 0int, 1int,
{
    broadcast use {
        growth_is_sound,
        step_patch,
        step_emit0,
        step_after_temp,
        step_push_int,
        step_assign_top,
        step_open_loop,
        step_continue_here,
        step_close_loop,
        step_remove_last_pop,
        rule_gen_length_test,
        rule_gen_item,
        rule_gen_next_item,
        jump_stays,
    };

    lemma_grows_self(s);
    let first = s;
    let r = gen_for_in(s, stmt, label);
    reveal(for_in_rule);
    assert(r == for_in_rule(s, stmt, label));
    match stmt {
        Statement::ForIn { var_name, iterable, body } => {
            let source = s.temp("keys"@);
            let s = s.after_temp();
            let index = s.temp("ki"@);
            keeps_expr(s.after_temp(), iterable);
            let s = gen_expr(s.after_temp(), iterable).emit0(Opcode::OpGetKeysIterator);
            let s = s.assign_top(source).push_int(0).assign_top(index);
            let start = s.here();
            let s = gen_length_test(s, index, source);
            let s = gen_item(s.open_loop(label, start), index, source).assign_top(var_name@);
            keeps_stmts(s, body, 0);
        },
        _ => {},
    }
    assert(grows(first, r));
    lemma_grows_all(first, r);
}

pub(crate) proof fn keeps_case_tests(
    s: CompilerView,
    cases: Vec<SwitchCase>,
    subject: Slot,
    i: int,
    jumps: Seq<usize>,
)
    requires
        is_sound(s),
        are_jumps(s, jumps),
        0 <= i,
    ensures
        ({
            let r = gen_case_tests(s, cases, subject, i, jumps);
            &&& grows(s, r.0)
            &&& forall|a: CompilerView| #[trigger] grows(a, s) ==> grows(a, r.0)
            &&& are_jumps(r.0, r.1)
            &&& grows(r.0, r.0)
            &&& r.1.len() == jumps.len() + tests_from(cases@, i)
        }),
    decreases cases, 1int, cases@.len() - i, 1int,
{
    broadcast use {
        growth_is_sound,
        step_patch,
        step_emit0,
        step_emit1,
        step_load,
        jump_stays,
        jumps_stay,
    };

    lemma_grows_self(s);
    let first = s;
    let r = gen_case_tests(s, cases, subject, i, jumps);
    reveal(case_tests_rule);
    assert(r == case_tests_rule(s, cases, subject, i, jumps));
    if 0 <= i < cases@.len() {
        match cases@[i].test {
            Some(test) => {
                keeps_expr(s.load(subject), test);
                let s = gen_expr(s.load(subject), test).emit0(Opcode::OpStrictEqual);
                let skip = s.here();
                let s = s.emit1(Opcode::OpJumpNotTruthy, PLACEHOLDER);
                let jump = s.here();
                let s = s.emit1(Opcode::OpJump, PLACEHOLDER);
                let s = s.patch(skip, 0, s.here());
                keeps_case_tests(s, cases, subject, i + 1, jumps.push(jump));
            },
            None => keeps_case_tests(s, cases, subject, i + 1, jumps),
        }
    }
    assert(grows(first, r.0));
    lemma_grows_all(first, r.0);
    lemma_grows_sound(first, r.0);
}

pub(crate) proof fn keeps_case_bodies(
    s: CompilerView,
    cases: Vec<SwitchCase>,
    i: int,
    starts: Seq<usize>,
)
    requires
        is_sound(s),
    ensures
        ({
            let r = gen_case_bodies(s, cases, i, starts);
            &&& grows(s, r.0)
            &&& forall|a: CompilerView| #[trigger] grows(a, s) ==> grows(a, r.0)
        }),
    decreases cases, 1int, cases@.len() - i, 1int,
{
    broadcast use {growth_is_sound, jump_stays, jumps_stay};

    lemma_grows_self(s);
    let first = s;
    let r = gen_case_bodies(s, cases, i, starts);
    reveal(case_bodies_rule);
    assert(r == case_bodies_rule(s, cases, i, starts));
    if 0 <= i < cases@.len() {
        keeps_stmts(s, cases@[i].consequent, 0);
        keeps_case_bodies(
            gen_stmts(s, cases@[i].consequent, 0),
            cases,
            i + 1,
            starts.push(s.here()),
        );
    }
    assert(grows(first, r.0));
    lemma_grows_all(first, r.0);
}

pub(crate) proof fn keeps_switch(s: CompilerView, stmt: Statement, label: Option<Seq<char>>)
    requires
        is_sound(s),
    ensures
        ({
            let r = gen_switch(s, stmt, label);
            &&& grows(s, r)
            &&& forall|a: CompilerView| #[trigger] grows(a, s) ==> grows(a, r)
        }),
    decreases stmt, 4int, 0int, 1int,
{
    broadcast use {
        growth_is_sound,
        step_emit1,
        step_patch,
        step_after_temp,
        step_binding_slot,
        step_store,
        step_open_loop,
        step_close_switch,
        jump_stays,
        jumps_stay,
    };

    lemma_grows_self(s);
    let first = s;
    let r = gen_switch(s, stmt, label);
    reveal(switch_rule);
    assert(r == switch_rule(s, stmt, label));
    match stmt {
        Statement::Switch { discriminant, cases } => {
            let s = s.open_loop(label, 0);
            let subject_name = s.temp("switch"@);
            keeps_expr(s.after_temp(), discriminant);
            let s = gen_expr(s.after_temp(), discriminant);
            let (s, idx) = s.binding_slot(subject_name);
            let subject = if s.is_function_scope {
                Slot::Local(idx)
            } else {
                Slot::Global(idx)
            };
            keeps_case_tests(s.store(subject), cases, subject, 0, Seq::empty());
            let (s, jumps) = gen_case_tests(s.store(subject), cases, subject, 0, Seq::empty());
            let otherwise = s.here();
            let s = s.emit1(Opcode::OpJump, PLACEHOLDER);
            assert(is_jump(s, otherwise, 0));
            keeps_case_bodies(s, cases, 0, Seq::empty());
            let (bodies, starts) = gen_case_bodies(s, cases, 0, Seq::empty());
            let end = bodies.here();
            lemma_grows_sound(s, bodies);
            assert(is_jump(bodies, otherwise, 0));
            assert(are_jumps(bodies, jumps));
            keeps_patch_cases(first, bodies, cases@, 0, jumps, 0, starts);
            keeps_patch_cases(bodies, bodies, cases@, 0, jumps, 0, starts);
            let s = patch_cases(bodies, cases@, 0, jumps, 0, starts);
            let s = match default_case(cases@, cases@.len() as int) {
                Some(d) => s.patch(otherwise, 0, starts[d]),
                None => s.patch(otherwise, 0, end),
            };
            assert(grows(first, s.close_switch(end)));
        },
        _ => {},
    }
    assert(grows(first, r));
    lemma_grows_all(first, r);
}

pub(crate) proof fn keeps_throw(s: CompilerView, value: Expression)
    requires
        is_sound(s),
    ensures
        ({
            let r = gen_throw(s, value);
            &&& grows(s, r)
            &&& forall|a: CompilerView| #[trigger] grows(a, s) ==> grows(a, r)
        }),
    decreases value, 8int, 0int, 1int,
{
    broadcast use {growth_is_sound, step_throw_top};

    lemma_grows_self(s);
    let first = s;
    let r = gen_throw(s, value);
    reveal(throw_rule);
    assert(r == throw_rule(s, value));
    keeps_expr(s, value);
    assert(grows(first, r));
    lemma_grows_all(first, r);
}

pub(crate) proof fn keeps_catch(
    s: CompilerView,
    stmt: Statement,
    exception: Seq<char>,
    thrown: Seq<char>,
)
    requires
        is_sound(s),
    ensures
        ({
            let r = gen_catch(s, stmt, exception, thrown);
            &&& grows(s, r)
            &&& forall|a: CompilerView| #[trigger] grows(a, s) ==> grows(a, r)
        }),
    decreases stmt, 3int, 0int, 1int,
{
    broadcast use {
        growth_is_sound,
        step_patch,
        step_emit0,
        step_emit1,
        step_assign_top,
        step_push_name,
        step_open_try,
        step_close_try,
        step_remove_last_pop,
        jump_stays,
    };

    lemma_grows_self(s);
    let first = s;
    let r = gen_catch(s, stmt, exception, thrown);
    reveal(catch_rule);
    assert(r == catch_rule(s, stmt, exception, thrown));
    match stmt {
        Statement::Try { catch_param, catch_block, finally_block, .. } => {
            match catch_block {
                Some(block) => {
                    let s = if finally_block is Some {
                        s.open_try(exception)
                    } else {
                        s
                    };
                    let s = match catch_param {
                        Some(p) => s.push_name(exception).assign_top(p@),
                        None => s,
                    };
                    keeps_stmts(s, block, 0);
                },
                _ => {},
            }
        },
        _ => {},
    }
    assert(grows(first, r));
    lemma_grows_all(first, r);
}

pub(crate) proof fn keeps_try(s: CompilerView, stmt: Statement)
    requires
        is_sound(s),
    ensures
        ({
            let r = gen_try(s, stmt);
            &&& grows(s, r)
            &&& forall|a: CompilerView| #[trigger] grows(a, s) ==> grows(a, r)
        }),
    decreases stmt, 4int, 0int, 1int,
{
    broadcast use {
        growth_is_sound,
        step_patch,
        step_emit0,
        step_emit1,
        step_after_temp,
        step_assign_top,
        step_push_name,
        step_open_try,
        step_close_try,
        step_throw_top,
        step_remove_last_pop,
        jump_stays,
    };

    lemma_grows_self(s);
    let first = s;
    let r = gen_try(s, stmt);
    reveal(try_rule);
    assert(r == try_rule(s, stmt));
    match stmt {
        Statement::Try { try_block, catch_param, catch_block, finally_block } => {
            let exception = s.temp("exc"@);
            let s = s.after_temp().emit0(Opcode::OpNull).assign_top(exception);
            let (s, thrown) = if finally_block is Some {
                let thrown = s.temp("exc_flag"@);
                (s.after_temp().emit0(Opcode::OpFalse).assign_top(thrown), thrown)
            } else {
                (s, Seq::empty())
            };
            let s = s.open_try(exception);
            keeps_stmts(s, try_block, 0);
            let s = gen_stmts(s, try_block, 0).remove_last_pop();
            let s = s.emit1(Opcode::OpJump, PLACEHOLDER);
            let s = s.close_try();
            keeps_catch(s, stmt, exception, thrown);
            let s = gen_catch(s, stmt, exception, thrown);
            match finally_block {
                Some(block) => keeps_stmts(s, block, 0),
                _ => {},
            }
        },
        _ => {},
    }
    assert(grows(first, r));
    lemma_grows_all(first, r);
}

} // verus!
