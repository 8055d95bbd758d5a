//! What statements of the register compiler leave as it is.
use vstd::prelude::*;

use crate::ast::{Expression, ForBinding, Statement, SwitchCase};
use crate::codegen::{is_const, PLACEHOLDER, Slot};
use crate::rcode::ROp;
use crate::rcodegen::{nth_reg, rfuse_compare, rfuse_increment, rfuse_mod_eq, RView};
use crate::rextend::{
    all_from, builds_on, ext_add_constant, ext_after_name, ext_binding_slot, ext_call_dst,
    ext_close_loop, ext_close_switch, ext_close_try, ext_continue_here, ext_declare_class,
    ext_declare_const, ext_declare_consts, ext_declare_locals, ext_defer_return, ext_emit,
    ext_enter_block, ext_exit_block, ext_fail, ext_finish_call, ext_free_temps, ext_get_name_prop,
    ext_here, ext_jump_from_loop, ext_load_const, ext_load_function, ext_load_name,
    ext_load_name_new, ext_mirror, ext_mirror_captured, ext_open_loop, ext_open_try, ext_patch,
    ext_patch_all, ext_rfuse_compare, ext_rfuse_increment, ext_rfuse_mod_eq, ext_set_temps,
    ext_store_binding, ext_store_name, ext_take_temp, extension_is_extendable, is_extendable,
    lemma_extends_all, lemma_extends_self,
};
use crate::rextend_assignments::{extends_into_local, extends_pattern};
use crate::rextend_expressions::{extends_expr, extends_expr_into};
use crate::rextend_functions::{extends_class, extends_function};
use crate::rextend_rules::{
    ext_call_method, ext_init_class, ext_note_throw, ext_open_finally, ext_open_thrown,
    ext_resume_return, ext_resume_throw, ext_rfuse_last, ext_rgen_item, ext_rgen_length_test,
    ext_rgen_next_item, ext_start_counter, ext_throw_reg, lemma_patch_cases,
};
use crate::rkeep_statements::tests_from;
use crate::rrules::{
    array_from_rrule, block_rrule, case_bodies_rrule, case_tests_rrule, catch_rrule,
    condition_rrule, do_while_rrule, for_in_rrule, for_of_rrule, for_rrule, for_update_rrule,
    freeing_walk, keeping_walk, note_throw, open_finally, open_thrown, picked, plain_walk,
    rfuse_last, rgen_array_from, rgen_block, rgen_case_bodies, rgen_case_tests, rgen_catch,
    rgen_condition, rgen_do_while, rgen_expr, rgen_for, rgen_for_in, rgen_for_of, rgen_for_update,
    rgen_item, rgen_length_test, rgen_pattern, rgen_stmt, rgen_switch, rgen_try, rgen_walk,
    rgen_while, start_counter, stmt_rrule, switch_rrule, try_rrule, walk_rrule, while_rrule, Walk,
};
use crate::rules::{parameters, pattern_names};

verus! {

pub(crate) proof fn extends_walk(
    s: RView,
    stmts: Vec<Statement>,
    i: int,
    n: int,
    walk: Walk,
    last: Option<u16>,
)
    requires
        is_extendable(s),
    ensures
        ({
            let r = rgen_walk(s, stmts, i, n, walk, last);
            &&& builds_on(s, r.0)
            &&& forall|a: RView| #[trigger] builds_on(a, s) ==> builds_on(a, r.0)
            &&& s.instructions.len() <= r.0.instructions.len()
            &&& r.0.loop_stack.len() == s.loop_stack.len()
            &&& r.0.try_stack.len() == s.try_stack.len()
        }),
    decreases stmts, 1int, n - i, 1int,
{
    broadcast use {ext_free_temps, extension_is_extendable};

    lemma_extends_self(s);
    let first = s;
    let r = rgen_walk(s, stmts, i, n, walk, last);
    reveal(walk_rrule);
    assert(r == walk_rrule(s, stmts, i, n, walk, last));
    if i < 0 || i >= n || i >= stmts@.len() {
    } else if !picked(walk.pick, stmts@[i]) {
        extends_walk(s, stmts, i + 1, n, walk, last);
    } else {
        extends_stmt(s, stmts@[i]);
        let (s, r) = rgen_stmt(s, stmts@[i]);
        extends_walk(
            if walk.free {
                s.free_temps()
            } else {
                s
            },
            stmts,
            i + 1,
            n,
            walk,
            if walk.keep && r is None {
                last
            } else {
                r
            },
        );
    }
    assert(builds_on(first, r.0));
    lemma_extends_all(first, r.0);
}

pub(crate) proof fn extends_block(s: RView, stmts: Vec<Statement>, n: int, walk: Walk)
    requires
        is_extendable(s),
    ensures
        ({
            let r = rgen_block(s, stmts, n, walk);
            &&& builds_on(s, r.0)
            &&& forall|a: RView| #[trigger] builds_on(a, s) ==> builds_on(a, r.0)
            &&& s.instructions.len() <= r.0.instructions.len()
            &&& r.0.loop_stack.len() == s.loop_stack.len()
            &&& r.0.try_stack.len() == s.try_stack.len()
        }),
    decreases stmts, 2int, 0int, 1int,
{
    broadcast use {ext_enter_block, ext_exit_block, extension_is_extendable};

    lemma_extends_self(s);
    let first = s;
    let r = rgen_block(s, stmts, n, walk);
    reveal(block_rrule);
    assert(r == block_rrule(s, stmts, n, walk));
    let (s, _) = s.enter_block(stmts@, 0, Seq::empty());
    extends_walk(s, stmts, 0, n, walk, None);
    assert(builds_on(first, r.0));
    lemma_extends_all(first, r.0);
}

pub(crate) proof fn extends_stmt(s: RView, stmt: Statement)
    requires
        is_extendable(s),
    ensures
        ({
            let r = rgen_stmt(s, stmt);
            &&& builds_on(s, r.0)
            &&& forall|a: RView| #[trigger] builds_on(a, s) ==> builds_on(a, r.0)
            &&& s.instructions.len() <= r.0.instructions.len()
            &&& r.0.loop_stack.len() == s.loop_stack.len()
            &&& r.0.try_stack.len() == s.try_stack.len()
        }),
    decreases stmt, 10int, 0int, 0int,
{
    broadcast use {
        ext_fail,
        ext_emit,
        ext_take_temp,
        ext_declare_const,
        ext_declare_consts,
        ext_add_constant,
        ext_load_const,
        ext_load_function,
        ext_binding_slot,
        ext_mirror_captured,
        ext_store_binding,
        ext_declare_class,
        ext_declare_locals,
        ext_jump_from_loop,
        ext_defer_return,
        ext_init_class,
        ext_throw_reg,
        extension_is_extendable,
    };

    lemma_extends_self(s);
    let first = s;
    let r = rgen_stmt(s, stmt);
    reveal(stmt_rrule);
    match stmt {
        Statement::Let { name, value, kind } => {
            let s = if is_const(kind) {
                s.declare_const(name@)
            } else {
                s
            };
            let known = s.locals.has(name@);
            let (s, slot) = s.binding_slot(name@);
            match slot {
                Slot::Local(r) => {
                    if known {
                        extends_into_local(s, value, r);
                    } else {
                        extends_expr_into(s, value, r);
                    }
                },
                Slot::Global(g) => extends_expr(s, value),
            }
        },
        Statement::LetPattern { pattern, value, kind } => {
            let s = if is_const(kind) {
                s.declare_consts(pattern_names(pattern))
            } else {
                s
            };
            let s = if s.is_function_scope {
                s.declare_locals(pattern_names(pattern), 0)
            } else {
                s
            };
            let source = s.next_temp;
            extends_expr(s, value);
            extends_pattern(rgen_expr(s, value), pattern, source);
        },
        Statement::Return { value } => extends_expr(s, value),
        Statement::Expression(e) => extends_expr(s, e),
        Statement::Block(body) => extends_block(s, body, body@.len() as int, plain_walk()),
        Statement::MultiLet(body) => extends_walk(s, body, 0, body@.len() as int, plain_walk(), None),
        Statement::While { .. } => extends_while(s, stmt, None),
        Statement::DoWhile { .. } => extends_do_while(s, stmt, None),
        Statement::For { .. } => extends_for(s, stmt, None),
        Statement::ForOf { .. } => extends_for_of(s, stmt, None),
        Statement::ForIn { .. } => extends_for_in(s, stmt, None),
        Statement::Switch { .. } => extends_switch(s, stmt, None),
        Statement::FunctionDecl { name, parameters, body, is_async, is_generator } => {
            extends_function(s.take_temp(), parameters, body, true, is_async, is_generator);
        },
        Statement::ClassDecl { name, extends, members } => {
            let s = match name {
                Some(n) => s.declare_class(n@),
                None => s,
            };
            extends_class(s, name, extends, members);
        },
        Statement::Throw { value } => extends_expr(s, value),
        Statement::Try { .. } => extends_try(s, stmt),
        Statement::Labeled { label, statement } => {
            match *statement {
                Statement::While { .. } => extends_while(s, *statement, Some(label@)),
                Statement::DoWhile { .. } => extends_do_while(s, *statement, Some(label@)),
                Statement::Switch { .. } => extends_switch(s, *statement, Some(label@)),
                Statement::For { .. } => extends_for(s, *statement, Some(label@)),
                Statement::ForOf { .. } => extends_for_of(s, *statement, Some(label@)),
                Statement::ForIn { .. } => extends_for_in(s, *statement, Some(label@)),
                _ => {},
            }
        },
        _ => {},
    }
    assert(builds_on(first, r.0));
    lemma_extends_all(first, r.0);
}

pub(crate) proof fn extends_condition(s: RView, c: Expression)
    requires
        is_extendable(s),
    ensures
        ({
            let r = rgen_condition(s, c);
            &&& builds_on(s, r.0)
            &&& forall|a: RView| #[trigger] builds_on(a, s) ==> builds_on(a, r.0)
            &&& s.instructions.len() <= r.0.instructions.len()
            &&& r.0.loop_stack.len() == s.loop_stack.len()
            &&& r.0.try_stack.len() == s.try_stack.len()
            &&& r.0.instructions.len() <= usize::MAX ==> s.instructions.len() <= r.1
        }),
    decreases c, 9int, 0int, 1int,
{
    broadcast use {
        ext_emit,
        ext_rfuse_compare,
        ext_rfuse_mod_eq,
        extension_is_extendable,
        ext_here,
    };

    lemma_extends_self(s);
    let first = s;
    let r = rgen_condition(s, c);
    reveal(condition_rrule);
    assert(r == condition_rrule(s, c));
    match rfuse_compare(s, c) {
        (s, None) => {
            match rfuse_mod_eq(s, c) {
                (s, None) => extends_expr(s, c),
                _ => {},
            }
        },
        _ => {},
    }
    assert(builds_on(first, r.0));
    lemma_extends_all(first, r.0);
}

pub(crate) proof fn extends_while(s: RView, stmt: Statement, label: Option<Seq<char>>)
    requires
        is_extendable(s),
    ensures
        ({
            let r = rgen_while(s, stmt, label);
            &&& builds_on(s, r)
            &&& forall|a: RView| #[trigger] builds_on(a, s) ==> builds_on(a, r)
            &&& s.instructions.len() <= r.instructions.len()
            &&& r.loop_stack.len() == s.loop_stack.len()
            &&& r.try_stack.len() == s.try_stack.len()
        }),
    decreases stmt, 4int, 0int, 1int,
{
    broadcast use {
        ext_emit,
        ext_patch,
        ext_open_loop,
        ext_close_loop,
        ext_rfuse_last,
        extension_is_extendable,
        ext_here,
    };

    lemma_extends_self(s);
    let first = s;
    let r = rgen_while(s, stmt, label);
    reveal(while_rrule);
    assert(r == while_rrule(s, stmt, label));
    match stmt {
        Statement::While { condition, body } => {
            let start = s.here();
            extends_condition(s, condition);
            let (s, _) = rgen_condition(s, condition);
            let (s, fused) = rfuse_last(s.open_loop(label, start), body@);
            match fused {
                Some((r, idx)) => extends_block(s, body, body@.len() - 1, freeing_walk()),
                None => extends_block(s, body, body@.len() as int, freeing_walk()),
            }
        },
        _ => {},
    }
    assert(builds_on(first, r));
    lemma_extends_all(first, r);
}

pub(crate) proof fn extends_do_while(s: RView, stmt: Statement, label: Option<Seq<char>>)
    requires
        is_extendable(s),
    ensures
        ({
            let r = rgen_do_while(s, stmt, label);
            &&& builds_on(s, r)
            &&& forall|a: RView| #[trigger] builds_on(a, s) ==> builds_on(a, r)
            &&& s.instructions.len() <= r.instructions.len()
            &&& r.loop_stack.len() == s.loop_stack.len()
            &&& r.try_stack.len() == s.try_stack.len()
        }),
    decreases stmt, 4int, 0int, 1int,
{
    broadcast use {
        ext_emit,
        ext_patch,
        ext_open_loop,
        ext_continue_here,
        ext_close_loop,
        extension_is_extendable,
        ext_here,
    };

    lemma_extends_self(s);
    let first = s;
    let r = rgen_do_while(s, stmt, label);
    reveal(do_while_rrule);
    assert(r == do_while_rrule(s, stmt, label));
    match stmt {
        Statement::DoWhile { body, condition } => {
            let start = s.here();
            let s = s.open_loop(label, start);
            extends_block(s, body, body@.len() as int, freeing_walk());
            let s = rgen_block(s, body, body@.len() as int, freeing_walk()).0;
            let s = s.continue_here();
            extends_expr(s, condition);
        },
        _ => {},
    }
    assert(builds_on(first, r));
    lemma_extends_all(first, r);
}

pub(crate) proof fn extends_for(s: RView, stmt: Statement, label: Option<Seq<char>>)
    requires
        is_extendable(s),
    ensures
        ({
            let r = rgen_for(s, stmt, label);
            &&& builds_on(s, r)
            &&& forall|a: RView| #[trigger] builds_on(a, s) ==> builds_on(a, r)
            &&& s.instructions.len() <= r.instructions.len()
            &&& r.loop_stack.len() == s.loop_stack.len()
            &&& r.try_stack.len() == s.try_stack.len()
        }),
    decreases stmt, 4int, 0int, 1int,
{
    broadcast use {
        ext_emit,
        ext_take_temp,
        ext_patch,
        ext_open_loop,
        ext_continue_here,
        ext_close_loop,
        extension_is_extendable,
        ext_here,
    };

    lemma_extends_self(s);
    let first = s;
    let r = rgen_for(s, stmt, label);
    reveal(for_rrule);
    assert(r == for_rrule(s, stmt, label));
    match stmt {
        Statement::For { init, condition, update, body } => {
            match init {
                Some(first) => extends_stmt(s, *first),
                _ => {},
            }
            let s = match init {
                Some(first) => rgen_stmt(s, *first).0,
                None => s,
            };
            let start = s.here();
            match condition {
                Some(c) => extends_condition(s, c),
                _ => {},
            }
            let (s, _) = match condition {
                Some(c) => rgen_condition(s, c),
                None => {
                    let r = s.next_temp;
                    let s = s.take_temp().emit(ROp::LoadTrue, seq![r]);
                    (s.emit(ROp::JumpIfNot, seq![r, PLACEHOLDER]), s.here())
                },
            };
            let s = s.open_loop(label, start);
            extends_block(s, body, body@.len() as int, freeing_walk());
            let s = rgen_block(s, body, body@.len() as int, freeing_walk()).0;
            let s = s.continue_here();
            match update {
                Some(u) => extends_for_update(s, u, start),
                _ => {},
            }
        },
        _ => {},
    }
    assert(builds_on(first, r));
    lemma_extends_all(first, r);
}

pub(crate) proof fn extends_for_update(s: RView, update: Expression, start: usize)
    requires
        is_extendable(s),
    ensures
        ({
            let r = rgen_for_update(s, update, start);
            &&& builds_on(s, r)
            &&& forall|a: RView| #[trigger] builds_on(a, s) ==> builds_on(a, r)
            &&& s.instructions.len() <= r.instructions.len()
            &&& r.loop_stack.len() == s.loop_stack.len()
            &&& r.try_stack.len() == s.try_stack.len()
        }),
    decreases update, 9int, 0int, 1int,
{
    broadcast use {
        ext_emit,
        ext_free_temps,
        ext_mirror,
        ext_rfuse_increment,
        extension_is_extendable,
    };

    lemma_extends_self(s);
    let first = s;
    let r = rgen_for_update(s, update, start);
    reveal(for_update_rrule);
    assert(r == for_update_rrule(s, update, start));
    match rfuse_increment(s, update) {
        (s, None) => extends_expr(s, update),
        _ => {},
    }
    assert(builds_on(first, r));
    lemma_extends_all(first, r);
}

pub(crate) proof fn extends_array_from(s: RView, iterable: Expression, dst: u16)
    requires
        is_extendable(s),
    ensures
        ({
            let r = rgen_array_from(s, iterable, dst);
            &&& builds_on(s, r)
            &&& forall|a: RView| #[trigger] builds_on(a, s) ==> builds_on(a, r)
            &&& s.instructions.len() <= r.instructions.len()
            &&& r.loop_stack.len() == s.loop_stack.len()
            &&& r.try_stack.len() == s.try_stack.len()
        }),
    decreases iterable, 9int, 0int, 1int,
{
    broadcast use {
        ext_emit,
        ext_take_temp,
        ext_set_temps,
        ext_load_name,
        ext_get_name_prop,
        ext_finish_call,
        ext_call_dst,
        ext_call_method,
        extension_is_extendable,
    };

    lemma_extends_self(s);
    let first = s;
    let r = rgen_array_from(s, iterable, dst);
    reveal(array_from_rrule);
    assert(r == array_from_rrule(s, iterable, dst));
    let (s, _) = s.call_dst(dst);
    match iterable {
        Expression::Spread { value } => {
            let f = s.next_temp;
            let s = s.take_temp().get_name_prop(f, "Array"@, "from"@);
            let list = s.next_temp;
            let s = s.take_temp().emit(ROp::Array, seq![list, 0, 0]);
            extends_expr(s, *value);
        },
        _ => {
            let base = s.next_temp;
            let s = s.take_temp().load_name("Array"@, base);
            let first = nth_reg(base, 1);
            extends_expr_into(s.set_temps(first).take_temp(), iterable, first);
        },
    }
    assert(builds_on(first, r));
    lemma_extends_all(first, r);
}

pub(crate) proof fn extends_for_of(s: RView, stmt: Statement, label: Option<Seq<char>>)
    requires
        is_extendable(s),
    ensures
        ({
            let r = rgen_for_of(s, stmt, label);
            &&& builds_on(s, r)
            &&& forall|a: RView| #[trigger] builds_on(a, s) ==> builds_on(a, r)
            &&& s.instructions.len() <= r.instructions.len()
            &&& r.loop_stack.len() == s.loop_stack.len()
            &&& r.try_stack.len() == s.try_stack.len()
        }),
    decreases stmt, 4int, 0int, 1int,
{
    broadcast use {
        ext_after_name,
        ext_take_temp,
        ext_store_name,
        ext_patch,
        ext_open_loop,
        ext_continue_here,
        ext_close_loop,
        ext_start_counter,
        ext_rgen_length_test,
        ext_rgen_item,
        ext_rgen_next_item,
        extension_is_extendable,
        ext_here,
    };

    lemma_extends_self(s);
    let first = s;
    let r = rgen_for_of(s, stmt, label);
    reveal(for_of_rrule);
    assert(r == for_of_rrule(s, stmt, label));
    match stmt {
        Statement::ForOf { binding, iterable, body } => {
            let source = s.hidden("iter"@);
            let s = s.after_name();
            let index = s.hidden("i"@);
            let s = s.after_name();
            let values = s.next_temp;
            extends_array_from(s.take_temp(), iterable, values);
            let s = rgen_array_from(s.take_temp(), iterable, values);
            let s = start_counter(s.store_name(source, values), index);
            let start = s.here();
            let (s, _) = rgen_length_test(s, index, source);
            let s = s.open_loop(label, start);
            let item = s.next_temp;
            let s = rgen_item(s, index, source);
            match binding {
                ForBinding::Pattern(p) => extends_pattern(s, p, item),
                _ => {},
            }
            let s = match binding {
                ForBinding::Identifier(name) => s.store_name(name@, item),
                ForBinding::Pattern(p) => rgen_pattern(s, p, item),
            };
            extends_block(s, body, body@.len() as int, plain_walk());
        },
        _ => {},
    }
    assert(builds_on(first, r));
    lemma_extends_all(first, r);
}

pub(crate) proof fn extends_for_in(s: RView, stmt: Statement, label: Option<Seq<char>>)
    requires
        is_extendable(s),
    ensures
        ({
            let r = rgen_for_in(s, stmt, label);
            &&& builds_on(s, r)
            &&& forall|a: RView| #[trigger] builds_on(a, s) ==> builds_on(a, r)
            &&& s.instructions.len() <= r.instructions.len()
            &&& r.loop_stack.len() == s.loop_stack.len()
            &&& r.try_stack.len() == s.try_stack.len()
        }),
    decreases stmt, 4int, 0int, 1int,
{
    broadcast use {
        ext_emit,
        ext_after_name,
        ext_take_temp,
        ext_store_name,
        ext_patch,
        ext_open_loop,
        ext_continue_here,
        ext_close_loop,
        ext_start_counter,
        ext_rgen_length_test,
        ext_rgen_item,
        ext_rgen_next_item,
        extension_is_extendable,
        ext_here,
    };

    lemma_extends_self(s);
    let first = s;
    let r = rgen_for_in(s, stmt, label);
    reveal(for_in_rrule);
    assert(r == for_in_rrule(s, stmt, label));
    match stmt {
        Statement::ForIn { var_name, iterable, body } => {
            let source = s.hidden("keys"@);
            let s = s.after_name();
            let index = s.hidden("ki"@);
            let s = s.after_name();
            let object = s.next_temp;
            extends_expr(s, iterable);
            let s = rgen_expr(s, iterable);
            let keys = s.next_temp;
            let s = s.take_temp().emit(ROp::GetKeysIter, seq![keys, object]);
            let s = start_counter(s.store_name(source, keys), index);
            let start = s.here();
            let (s, _) = rgen_length_test(s, index, source);
            let s = s.open_loop(label, start);
            let key = s.next_temp;
            let s = rgen_item(s, index, source).store_name(var_name@, key);
            extends_block(s, body, body@.len() as int, plain_walk());
        },
        _ => {},
    }
    assert(builds_on(first, r));
    lemma_extends_all(first, r);
}

pub(crate) proof fn extends_case_tests(
    s: RView,
    cases: Vec<SwitchCase>,
    subject: u16,
    saved: u16,
    i: int,
    jumps: Seq<usize>,
)
    requires
        is_extendable(s),
        0 <= i,
    ensures
        ({
            let r = rgen_case_tests(s, cases, subject, saved, i, jumps);
            &&& builds_on(s, r.0)
            &&& forall|a: RView| #[trigger] builds_on(a, s) ==> builds_on(a, r.0)
            &&& s.instructions.len() <= r.0.instructions.len()
            &&& r.0.loop_stack.len() == s.loop_stack.len()
            &&& r.0.try_stack.len() == s.try_stack.len()
            &&& r.1.len() == jumps.len() + tests_from(cases@, i)
            &&& r.0.instructions.len() <= usize::MAX ==> forall|n: int|
                n <= s.instructions.len() && #[trigger] all_from(jumps, n) ==> all_from(r.1, n)
        }),
    decreases cases, 1int, cases@.len() - i, 1int,
{
    broadcast use {ext_emit, ext_take_temp, ext_set_temps, extension_is_extendable, ext_here};

    lemma_extends_self(s);
    let first = s;
    let r = rgen_case_tests(s, cases, subject, saved, i, jumps);
    reveal(case_tests_rrule);
    assert(r == case_tests_rrule(s, cases, subject, saved, i, jumps));
    if 0 <= i < cases@.len() {
        match cases@[i].test {
            Some(test) => {
                let t = s.next_temp;
                extends_expr(s, test);
                let s = rgen_expr(s, test);
                let equal = s.next_temp;
                let s = s.take_temp().emit(ROp::StrictEqual, seq![equal, subject, t]);
                let jump = s.here();
                let s = s.emit(ROp::JumpIfTruthy, seq![equal, PLACEHOLDER]).set_temps(saved);
                extends_case_tests(s, cases, subject, saved, i + 1, jumps.push(jump));
                if r.0.instructions.len() <= usize::MAX {
                    assert forall|n: int|
                        n <= first.instructions.len() && #[trigger] all_from(
                            jumps,
                            n,
                        ) implies all_from(r.1, n) by {
                        assert(all_from(jumps.push(jump), n));
                    }
                }
            },
            None => extends_case_tests(s, cases, subject, saved, i + 1, jumps),
        }
    }
    assert(builds_on(first, r.0));
    lemma_extends_all(first, r.0);
}

pub(crate) proof fn extends_case_bodies(
    s: RView,
    cases: Vec<SwitchCase>,
    i: int,
    starts: Seq<usize>,
)
    requires
        is_extendable(s),
    ensures
        ({
            let r = rgen_case_bodies(s, cases, i, starts);
            &&& builds_on(s, r.0)
            &&& forall|a: RView| #[trigger] builds_on(a, s) ==> builds_on(a, r.0)
            &&& s.instructions.len() <= r.0.instructions.len()
            &&& r.0.loop_stack.len() == s.loop_stack.len()
            &&& r.0.try_stack.len() == s.try_stack.len()
        }),
    decreases cases, 1int, cases@.len() - i, 1int,
{
    broadcast use {extension_is_extendable, ext_here};

    lemma_extends_self(s);
    let first = s;
    let r = rgen_case_bodies(s, cases, i, starts);
    reveal(case_bodies_rrule);
    assert(r == case_bodies_rrule(s, cases, i, starts));
    if 0 <= i < cases@.len() {
        let body = cases@[i].consequent;
        extends_walk(s, body, 0, body@.len() as int, freeing_walk(), None);
        extends_case_bodies(
            rgen_walk(s, body, 0, body@.len() as int, freeing_walk(), None).0,
            cases,
            i + 1,
            starts.push(s.here()),
        );
    }
    assert(builds_on(first, r.0));
    lemma_extends_all(first, r.0);
}

pub(crate) proof fn extends_switch(s: RView, stmt: Statement, label: Option<Seq<char>>)
    requires
        is_extendable(s),
    ensures
        ({
            let r = rgen_switch(s, stmt, label);
            &&& builds_on(s, r)
            &&& forall|a: RView| #[trigger] builds_on(a, s) ==> builds_on(a, r)
            &&& s.instructions.len() <= r.instructions.len()
            &&& r.loop_stack.len() == s.loop_stack.len()
            &&& r.try_stack.len() == s.try_stack.len()
        }),
    decreases stmt, 4int, 0int, 1int,
{
    broadcast use {
        ext_emit,
        ext_patch,
        ext_open_loop,
        ext_close_switch,
        extension_is_extendable,
        ext_here,
    };

    lemma_extends_self(s);
    let first = s;
    let r = rgen_switch(s, stmt, label);
    reveal(switch_rrule);
    assert(r == switch_rrule(s, stmt, label));
    match stmt {
        Statement::Switch { discriminant, cases } => {
            let s = s.open_loop(label, 0);
            let subject = s.next_temp;
            extends_expr(s, discriminant);
            let s = rgen_expr(s, discriminant);
            extends_case_tests(s, cases, subject, s.next_temp, 0, Seq::empty());
            let (s, jumps) = rgen_case_tests(s, cases, subject, s.next_temp, 0, Seq::empty());
            let s = s.emit(ROp::Jump, seq![PLACEHOLDER]);
            extends_case_bodies(s, cases, 0, Seq::empty());
            let (s, starts) = rgen_case_bodies(s, cases, 0, Seq::empty());
            assert(all_from(Seq::<usize>::empty(), first.instructions.len() as int));
            lemma_patch_cases(first, s, cases@, 0, jumps, 0, starts);
        },
        _ => {},
    }
    assert(builds_on(first, r));
    lemma_extends_all(first, r);
}

pub(crate) proof fn extends_catch(
    s: RView,
    stmt: Statement,
    exception: Seq<char>,
    deferred: Option<(Seq<char>, Seq<char>)>,
    last: Option<u16>,
)
    requires
        is_extendable(s),
    ensures
        ({
            let r = rgen_catch(s, stmt, exception, deferred, last);
            &&& builds_on(s, r.0)
            &&& forall|a: RView| #[trigger] builds_on(a, s) ==> builds_on(a, r.0)
            &&& s.instructions.len() <= r.0.instructions.len()
            &&& r.0.loop_stack.len() == s.loop_stack.len()
            &&& r.0.try_stack.len() == s.try_stack.len()
            &&& r.0.instructions.len() <= usize::MAX ==> all_from(r.1, s.instructions.len() as int)
        }),
    decreases stmt, 3int, 0int, 1int,
{
    broadcast use {
        ext_emit,
        ext_store_name,
        ext_load_name_new,
        ext_open_try,
        ext_close_try,
        extension_is_extendable,
        ext_here,
    };

    lemma_extends_self(s);
    let first = s;
    let r = rgen_catch(s, stmt, exception, deferred, last);
    reveal(catch_rrule);
    assert(r == catch_rrule(s, stmt, exception, deferred, last));
    match stmt {
        Statement::Try { catch_param, catch_block, .. } => {
            match catch_block {
                Some(block) => {
                    let s = if deferred is Some {
                        s.open_try(exception, deferred)
                    } else {
                        s
                    };
                    let s = match catch_param {
                        Some(p) => s.load_name_new(exception).store_name(p@, s.next_temp),
                        None => s,
                    };
                    extends_walk(s, block, 0, block@.len() as int, keeping_walk(), last);
                },
                _ => {},
            }
        },
        _ => {},
    }
    assert(builds_on(first, r.0));
    lemma_extends_all(first, r.0);
}

pub(crate) proof fn extends_try(s: RView, stmt: Statement)
    requires
        is_extendable(s),
    ensures
        ({
            let r = rgen_try(s, stmt);
            &&& builds_on(s, r.0)
            &&& forall|a: RView| #[trigger] builds_on(a, s) ==> builds_on(a, r.0)
            &&& s.instructions.len() <= r.0.instructions.len()
            &&& r.0.loop_stack.len() == s.loop_stack.len()
            &&& r.0.try_stack.len() == s.try_stack.len()
        }),
    decreases stmt, 4int, 0int, 1int,
{
    broadcast use {
        ext_emit,
        ext_after_name,
        ext_take_temp,
        ext_store_name,
        ext_patch,
        ext_patch_all,
        ext_open_try,
        ext_close_try,
        ext_open_finally,
        ext_resume_return,
        ext_open_thrown,
        ext_note_throw,
        ext_resume_throw,
        extension_is_extendable,
        ext_here,
    };

    lemma_extends_self(s);
    let first = s;
    let r = rgen_try(s, stmt);
    reveal(try_rrule);
    assert(r == try_rrule(s, stmt));
    match stmt {
        Statement::Try { try_block, finally_block, .. } => {
            let exception = s.hidden("exc"@);
            let s = s.after_name();
            let r = s.next_temp;
            let s = s.take_temp().emit(ROp::LoadNull, seq![r]).store_name(exception, r);
            let (s, deferred) = if finally_block is Some {
                let (s, pair) = open_finally(s);
                (s, Some(pair))
            } else {
                (s, None)
            };
            let (s, thrown) = if finally_block is Some {
                open_thrown(s)
            } else {
                (s, Seq::empty())
            };
            let s = s.open_try(exception, deferred);
            extends_walk(s, try_block, 0, try_block@.len() as int, keeping_walk(), None);
            let (s, last) = rgen_walk(
                s,
                try_block,
                0,
                try_block@.len() as int,
                keeping_walk(),
                None,
            );
            let s = s.emit(ROp::Jump, seq![PLACEHOLDER]);
            let (s, _) = s.close_try();
            extends_catch(s, stmt, exception, deferred, last);
            let (s, _, _) = rgen_catch(s, stmt, exception, deferred, last);
            let s = if finally_block is Some {
                note_throw(s, thrown)
            } else {
                s
            };
            match (finally_block, deferred) {
                (Some(block), Some((held, flag))) => {
                    extends_walk(s, block, 0, block@.len() as int, plain_walk(), None);
                },
                _ => {},
            }
        },
        _ => {},
    }
    assert(builds_on(first, r.0));
    lemma_extends_all(first, r.0);
}

} // verus!
