//! What statements of the register compiler keep.
use vstd::prelude::*;

use crate::ast::{Expression, ForBinding, Program, Statement, SwitchCase};
use crate::codegen::{is_const, PLACEHOLDER, Slot};
use crate::rcode::ROp;
use crate::rcodegen::{nth_reg, rfuse_compare, rfuse_increment, rfuse_mod_eq, RView};
use crate::rkeep_assignments::{keeps_into_local, keeps_pattern};
use crate::rkeep_expressions::{keeps_expr, keeps_expr_into};
use crate::rkeep_functions::{keeps_class, keeps_function};
use crate::rkeep::{
    lemma_grows_all, rule_call_method, rule_init_class, rule_note_throw, rule_open_finally,
    rule_open_thrown, rule_resume_return, rule_resume_throw, rule_rfuse_last, rule_rgen_item,
    rule_rgen_length_test, rule_rgen_next_item, rule_start_counter, rule_throw_reg,
};
use crate::rlaws::is_start;
use crate::rlayout::{constants_within, is_whole, jumps_land, registers_within};
use crate::rrules::{
    array_from_rrule, block_rrule, case_bodies_rrule, case_tests_rrule, catch_rrule,
    condition_rrule, do_while_rrule, for_in_rrule, for_of_rrule, for_rrule, for_update_rrule,
    freeing_walk, keeping_walk, note_throw, open_finally, open_thrown, picked, plain_walk,
    rfuse_last, rgen_array_from, rgen_block, rgen_case_bodies, rgen_case_tests, rgen_catch,
    rgen_condition, rgen_do_while, rgen_expr, rgen_for, rgen_for_in, rgen_for_of, rgen_for_update,
    rgen_item, rgen_length_test, rgen_pattern, rgen_program, rgen_stmt, rgen_switch, rgen_try,
    rgen_walk, rgen_while, rpatch_cases, start_counter, stmt_rrule, switch_rrule, try_rrule,
    walk_rrule, while_rrule, Walk,
};
use crate::rsound::{
    are_laid_out, are_places, constant_stays, grows, growth_is_sound, is_narrow, is_place,
    is_sound, last_fits, lemma_grows_self, lemma_grows_sound, lemma_sound_code,
    lemma_start_is_sound, lemma_zero_is_place, local_is_counted, place_lands, place_stays,
    placeholder_lands, places_stay, step_add_constant, step_after_name, step_binding_slot,
    step_call_dst, step_close_loop, step_close_switch, step_close_try, step_continue_here,
    step_declare_all, step_declare_class, step_declare_const, step_declare_consts,
    step_declare_locals, step_defer_return, step_emit, step_enter_block, step_exit_block,
    step_fail, step_finish_call, step_free_temps, step_fuse_compare, step_fuse_increment,
    step_fuse_mod_eq, step_get_name_prop, step_here, step_jump_from_loop, step_load_const,
    step_load_function, step_load_name, step_load_name_new, step_mirror, step_mirror_captured,
    step_open_loop, step_open_try, step_patch, step_patch_all, step_set_temps, step_store_binding,
    step_store_name, step_take_temp,
};
use crate::rules::{default_case, parameters, pattern_names, var_names};

verus! {

/// The number of tests among the cases from position `i` on.
pub(crate) open spec fn tests_from(cases: Seq<SwitchCase>, i: int) -> int
    decreases cases.len() - i,
{
    if i < 0 || i >= cases.len() {
        0
    } else {
        tests_from(cases, i + 1) + if cases[i].test is Some {
            1int
        } else {
            0
        }
    }
}

proof fn keeps_patch_cases(
    b: RView,
    s: RView,
    cases: Seq<SwitchCase>,
    i: int,
    jumps: Seq<usize>,
    j: int,
    starts: Seq<usize>,
)
    requires
        grows(b, s),
        are_places(s, jumps),
        are_places(s, starts),
        0 <= i,
        0 <= j,
        j + tests_from(cases, i) <= jumps.len(),
        cases.len() <= starts.len(),
    ensures
        grows(b, rpatch_cases(s, cases, i, jumps, j, starts)),
        s.max_reg <= rpatch_cases(s, cases, i, jumps, j, starts).max_reg,
    decreases cases.len() - i,
{
    reveal(rpatch_cases);
    if i < cases.len() {
        if cases[i].test is Some {
            lemma_tests(cases, i + 1);
            let t = s.patch(jumps[j], starts[i]);
            lemma_grows_sound(b, s);
            step_patch(b, s, jumps[j], starts[i]);
            step_patch(s, s, jumps[j], starts[i]);
            places_stay(s, t, jumps);
            places_stay(s, t, starts);
            keeps_patch_cases(b, t, cases, i + 1, jumps, j + 1, starts);
        } else {
            keeps_patch_cases(b, s, cases, i + 1, jumps, j, starts);
        }
    }
}

proof fn lemma_tests(cases: Seq<SwitchCase>, i: int)
    ensures
        tests_from(cases, i) >= 0,
    decreases cases.len() - i,
{
    if 0 <= i < cases.len() {
        lemma_tests(cases, i + 1);
    }
}

proof fn lemma_default_case(cases: Seq<SwitchCase>, n: int)
    requires
        n <= cases.len(),
    ensures
        default_case(cases, n) matches Some(d) ==> 0 <= d < n,
    decreases n,
{
    if n > 0 {
        lemma_default_case(cases, n - 1);
    }
}

pub(crate) proof fn keeps_walk(s: RView, stmts: Vec<Statement>, i: int, n: int, walk: Walk, last: Option<u16>)
    requires
        is_sound(s),
        last_fits(last, s.max_reg),
    ensures
        ({
            let r = rgen_walk(s, stmts, i, n, walk, last);
            &&& grows(s, r.0)
            &&& forall|a: RView| #[trigger] grows(a, s) ==> grows(a, r.0)
            &&& s.max_reg <= r.0.max_reg
            &&& last_fits(r.1, r.0.max_reg)
        }),
    decreases stmts, 1int, n - i, 1int,
{
    broadcast use {growth_is_sound, step_free_temps};

    lemma_grows_self(s);
    let first = s;
    let r = rgen_walk(s, stmts, i, n, walk, last);
    reveal(walk_rrule);
    assert(r == walk_rrule(s, stmts, i, n, walk, last));
    if i < 0 || i >= n || i >= stmts@.len() {
    } else if !picked(walk.pick, stmts@[i]) {
        keeps_walk(s, stmts, i + 1, n, walk, last);
    } else {
        keeps_stmt(s, stmts@[i]);
        let (s, r) = rgen_stmt(s, stmts@[i]);
        keeps_walk(
            if walk.free {
                s.free_temps()
            } else {
                s
            },
            stmts,
            i + 1,
            n,
            walk,
            if walk.keep && r is None {
                last
            } else {
                r
            },
        );
    }
    assert(grows(first, r.0));
    lemma_grows_all(first, r.0);
}

pub(crate) proof fn keeps_block(s: RView, stmts: Vec<Statement>, n: int, walk: Walk)
    requires
        is_sound(s),
    ensures
        ({
            let r = rgen_block(s, stmts, n, walk);
            &&& grows(s, r.0)
            &&& forall|a: RView| #[trigger] grows(a, s) ==> grows(a, r.0)
            &&& s.max_reg <= r.0.max_reg
            &&& last_fits(r.1, r.0.max_reg)
        }),
    decreases stmts, 2int, 0int, 1int,
{
    broadcast use {growth_is_sound, step_enter_block, step_exit_block};

    lemma_grows_self(s);
    let first = s;
    let r = rgen_block(s, stmts, n, walk);
    reveal(block_rrule);
    assert(r == block_rrule(s, stmts, n, walk));
    let (s, _) = s.enter_block(stmts@, 0, Seq::empty());
    keeps_walk(s, stmts, 0, n, walk, None);
    assert(grows(first, r.0));
    lemma_grows_all(first, r.0);
}

pub(crate) proof fn keeps_stmt(s: RView, stmt: Statement)
    requires
        is_sound(s),
    ensures
        ({
            let r = rgen_stmt(s, stmt);
            &&& grows(s, r.0)
            &&& forall|a: RView| #[trigger] grows(a, s) ==> grows(a, r.0)
            &&& s.max_reg <= r.0.max_reg
            &&& last_fits(r.1, r.0.max_reg)
        }),
    decreases stmt, 10int, 0int, 0int,
{
    broadcast use {
        growth_is_sound,
        step_emit,
        step_fail,
        step_take_temp,
        step_add_constant,
        step_load_const,
        step_load_function,
        step_binding_slot,
        step_mirror_captured,
        step_store_binding,
        step_declare_const,
        step_declare_consts,
        step_declare_locals,
        step_declare_class,
        step_jump_from_loop,
        step_defer_return,
        rule_init_class,
        rule_throw_reg,
        local_is_counted,
        constant_stays,
    };

    lemma_grows_self(s);
    let first = s;
    let r = rgen_stmt(s, stmt);
    reveal(stmt_rrule);
    match stmt {
        Statement::Let { name, value, kind } => {
            let s = if is_const(kind) {
                s.declare_const(name@)
            } else {
                s
            };
            let known = s.locals.has(name@);
            let (s, slot) = s.binding_slot(name@);
            match slot {
                Slot::Local(r) => {
                    if known {
                        keeps_into_local(s, value, r);
                    } else {
                        keeps_expr_into(s, value, r);
                    }
                },
                Slot::Global(g) => keeps_expr(s, value),
            }
        },
        Statement::LetPattern { pattern, value, kind } => {
            let s = if is_const(kind) {
                s.declare_consts(pattern_names(pattern))
            } else {
                s
            };
            let s = if s.is_function_scope {
                s.declare_locals(pattern_names(pattern), 0)
            } else {
                s
            };
            let source = s.next_temp;
            keeps_expr(s, value);
            keeps_pattern(rgen_expr(s, value), pattern, source);
        },
        Statement::Return { value } => keeps_expr(s, value),
        Statement::Expression(e) => keeps_expr(s, e),
        Statement::Block(body) => keeps_block(s, body, body@.len() as int, plain_walk()),
        Statement::MultiLet(body) => keeps_walk(s, body, 0, body@.len() as int, plain_walk(), None),
        Statement::While { .. } => keeps_while(s, stmt, None),
        Statement::DoWhile { .. } => keeps_do_while(s, stmt, None),
        Statement::For { .. } => keeps_for(s, stmt, None),
        Statement::ForOf { .. } => keeps_for_of(s, stmt, None),
        Statement::ForIn { .. } => keeps_for_in(s, stmt, None),
        Statement::Switch { .. } => keeps_switch(s, stmt, None),
        Statement::FunctionDecl { name, parameters, body, is_async, is_generator } => {
            keeps_function(s.take_temp(), parameters, body, true, is_async, is_generator);
        },
        Statement::ClassDecl { name, extends, members } => {
            let s = match name {
                Some(n) => s.declare_class(n@),
                None => s,
            };
            keeps_class(s, name, extends, members);
        },
        Statement::Throw { value } => keeps_expr(s, value),
        Statement::Try { .. } => keeps_try(s, stmt),
        Statement::Labeled { label, statement } => {
            match *statement {
                Statement::While { .. } => keeps_while(s, *statement, Some(label@)),
                Statement::DoWhile { .. } => keeps_do_while(s, *statement, Some(label@)),
                Statement::Switch { .. } => keeps_switch(s, *statement, Some(label@)),
                Statement::For { .. } => keeps_for(s, *statement, Some(label@)),
                Statement::ForOf { .. } => keeps_for_of(s, *statement, Some(label@)),
                Statement::ForIn { .. } => keeps_for_in(s, *statement, Some(label@)),
                _ => {},
            }
        },
        _ => {},
    }
    assert(grows(first, r.0));
    lemma_grows_all(first, r.0);
}

pub(crate) proof fn keeps_condition(s: RView, c: Expression)
    requires
        is_sound(s),
    ensures
        ({
            let r = rgen_condition(s, c);
            &&& grows(s, r.0)
            &&& forall|a: RView| #[trigger] grows(a, s) ==> grows(a, r.0)
            &&& s.max_reg <= r.0.max_reg
            &&& grows(r.0, r.0)
            &&& is_place(r.0, r.1)
        }),
    decreases c, 9int, 0int, 1int,
{
    broadcast use {
        growth_is_sound,
        step_emit,
        step_here,
        step_fuse_compare,
        step_fuse_mod_eq,
        place_stays,
        constant_stays,
        placeholder_lands,
    };

    lemma_grows_self(s);
    let first = s;
    let r = rgen_condition(s, c);
    reveal(condition_rrule);
    assert(r == condition_rrule(s, c));
    match rfuse_compare(s, c) {
        (s, None) => {
            match rfuse_mod_eq(s, c) {
                (s, None) => keeps_expr(s, c),
                _ => {},
            }
        },
        _ => {},
    }
    assert(grows(first, r.0));
    lemma_grows_all(first, r.0);
    lemma_grows_sound(first, r.0);
}

pub(crate) proof fn keeps_while(s: RView, stmt: Statement, label: Option<Seq<char>>)
    requires
        is_sound(s),
    ensures
        ({
            let r = rgen_while(s, stmt, label);
            &&& grows(s, r)
            &&& forall|a: RView| #[trigger] grows(a, s) ==> grows(a, r)
            &&& s.max_reg <= r.max_reg
        }),
    decreases stmt, 4int, 0int, 1int,
{
    broadcast use {
        growth_is_sound,
        step_emit,
        step_patch,
        step_here,
        step_open_loop,
        step_close_loop,
        rule_rfuse_last,
        place_stays,
        constant_stays,
        place_lands,
    };

    lemma_grows_self(s);
    let first = s;
    let r = rgen_while(s, stmt, label);
    reveal(while_rrule);
    assert(r == while_rrule(s, stmt, label));
    match stmt {
        Statement::While { condition, body } => {
            let start = s.here();
            keeps_condition(s, condition);
            let (s, _) = rgen_condition(s, condition);
            let (s, fused) = rfuse_last(s.open_loop(label, start), body@);
            match fused {
                Some((r, idx)) => keeps_block(s, body, body@.len() - 1, freeing_walk()),
                None => keeps_block(s, body, body@.len() as int, freeing_walk()),
            }
        },
        _ => {},
    }
    assert(grows(first, r));
    lemma_grows_all(first, r);
}

pub(crate) proof fn keeps_do_while(s: RView, stmt: Statement, label: Option<Seq<char>>)
    requires
        is_sound(s),
    ensures
        ({
            let r = rgen_do_while(s, stmt, label);
            &&& grows(s, r)
            &&& forall|a: RView| #[trigger] grows(a, s) ==> grows(a, r)
            &&& s.max_reg <= r.max_reg
        }),
    decreases stmt, 4int, 0int, 1int,
{
    broadcast use {
        growth_is_sound,
        step_emit,
        step_patch,
        step_here,
        step_open_loop,
        step_continue_here,
        step_close_loop,
        place_stays,
        place_lands,
        placeholder_lands,
    };

    lemma_grows_self(s);
    let first = s;
    let r = rgen_do_while(s, stmt, label);
    reveal(do_while_rrule);
    assert(r == do_while_rrule(s, stmt, label));
    match stmt {
        Statement::DoWhile { body, condition } => {
            let start = s.here();
            let s = s.open_loop(label, start);
            keeps_block(s, body, body@.len() as int, freeing_walk());
            let s = rgen_block(s, body, body@.len() as int, freeing_walk()).0;
            let s = s.continue_here();
            keeps_expr(s, condition);
        },
        _ => {},
    }
    assert(grows(first, r));
    lemma_grows_all(first, r);
}

pub(crate) proof fn keeps_for(s: RView, stmt: Statement, label: Option<Seq<char>>)
    requires
        is_sound(s),
    ensures
        ({
            let r = rgen_for(s, stmt, label);
            &&& grows(s, r)
            &&& forall|a: RView| #[trigger] grows(a, s) ==> grows(a, r)
            &&& s.max_reg <= r.max_reg
        }),
    decreases stmt, 4int, 0int, 1int,
{
    broadcast use {
        growth_is_sound,
        step_emit,
        step_patch,
        step_here,
        step_take_temp,
        step_open_loop,
        step_continue_here,
        step_close_loop,
        place_stays,
        place_lands,
        placeholder_lands,
    };

    lemma_grows_self(s);
    let first = s;
    let r = rgen_for(s, stmt, label);
    reveal(for_rrule);
    assert(r == for_rrule(s, stmt, label));
    match stmt {
        Statement::For { init, condition, update, body } => {
            match init {
                Some(first) => keeps_stmt(s, *first),
                _ => {},
            }
            let s = match init {
                Some(first) => rgen_stmt(s, *first).0,
                None => s,
            };
            let start = s.here();
            match condition {
                Some(c) => keeps_condition(s, c),
                _ => {},
            }
            let (s, _) = match condition {
                Some(c) => rgen_condition(s, c),
                None => {
                    let r = s.next_temp;
                    let s = s.take_temp().emit(ROp::LoadTrue, seq![r]);
                    (s.emit(ROp::JumpIfNot, seq![r, PLACEHOLDER]), s.here())
                },
            };
            let s = s.open_loop(label, start);
            keeps_block(s, body, body@.len() as int, freeing_walk());
            let s = rgen_block(s, body, body@.len() as int, freeing_walk()).0;
            let s = s.continue_here();
            match update {
                Some(u) => keeps_for_update(s, u, start),
                _ => {},
            }
        },
        _ => {},
    }
    assert(grows(first, r));
    lemma_grows_all(first, r);
}

pub(crate) proof fn keeps_for_update(s: RView, update: Expression, start: usize)
    requires
        is_sound(s),
        is_place(s, start),
    ensures
        ({
            let r = rgen_for_update(s, update, start);
            &&& grows(s, r)
            &&& forall|a: RView| #[trigger] grows(a, s) ==> grows(a, r)
            &&& s.max_reg <= r.max_reg
        }),
    decreases update, 9int, 0int, 1int,
{
    broadcast use {
        growth_is_sound,
        step_emit,
        step_free_temps,
        step_mirror,
        step_fuse_increment,
        place_stays,
        constant_stays,
        places_stay,
        place_lands,
    };

    lemma_grows_self(s);
    let first = s;
    let r = rgen_for_update(s, update, start);
    reveal(for_update_rrule);
    assert(r == for_update_rrule(s, update, start));
    match rfuse_increment(s, update) {
        (s, None) => keeps_expr(s, update),
        _ => {},
    }
    assert(grows(first, r));
    lemma_grows_all(first, r);
}

pub(crate) proof fn keeps_array_from(s: RView, iterable: Expression, dst: u16)
    requires
        is_sound(s),
        dst <= s.max_reg,
    ensures
        ({
            let r = rgen_array_from(s, iterable, dst);
            &&& grows(s, r)
            &&& forall|a: RView| #[trigger] grows(a, s) ==> grows(a, r)
            &&& s.max_reg <= r.max_reg
        }),
    decreases iterable, 9int, 0int, 1int,
{
    broadcast use {
        growth_is_sound,
        step_emit,
        step_take_temp,
        step_set_temps,
        step_load_name,
        step_get_name_prop,
        step_finish_call,
        step_call_dst,
        rule_call_method,
    };

    lemma_grows_self(s);
    let first = s;
    let r = rgen_array_from(s, iterable, dst);
    reveal(array_from_rrule);
    assert(r == array_from_rrule(s, iterable, dst));
    let (s, _) = s.call_dst(dst);
    match iterable {
        Expression::Spread { value } => {
            let f = s.next_temp;
            let s = s.take_temp().get_name_prop(f, "Array"@, "from"@);
            let list = s.next_temp;
            let s = s.take_temp().emit(ROp::Array, seq![list, 0, 0]);
            keeps_expr(s, *value);
        },
        _ => {
            let base = s.next_temp;
            let s = s.take_temp().load_name("Array"@, base);
            let first = nth_reg(base, 1);
            keeps_expr_into(s.set_temps(first).take_temp(), iterable, first);
        },
    }
    assert(grows(first, r));
    lemma_grows_all(first, r);
}

pub(crate) proof fn keeps_for_of(s: RView, stmt: Statement, label: Option<Seq<char>>)
    requires
        is_sound(s),
    ensures
        ({
            let r = rgen_for_of(s, stmt, label);
            &&& grows(s, r)
            &&& forall|a: RView| #[trigger] grows(a, s) ==> grows(a, r)
            &&& s.max_reg <= r.max_reg
        }),
    decreases stmt, 4int, 0int, 1int,
{
    broadcast use {
        growth_is_sound,
        step_patch,
        step_here,
        step_after_name,
        step_take_temp,
        step_store_name,
        step_open_loop,
        step_continue_here,
        step_close_loop,
        rule_start_counter,
        rule_rgen_length_test,
        rule_rgen_item,
        rule_rgen_next_item,
        place_stays,
    };

    lemma_grows_self(s);
    let first = s;
    let r = rgen_for_of(s, stmt, label);
    reveal(for_of_rrule);
    assert(r == for_of_rrule(s, stmt, label));
    match stmt {
        Statement::ForOf { binding, iterable, body } => {
            let source = s.hidden("iter"@);
            let s = s.after_name();
            let index = s.hidden("i"@);
            let s = s.after_name();
            let values = s.next_temp;
            keeps_array_from(s.take_temp(), iterable, values);
            let s = rgen_array_from(s.take_temp(), iterable, values);
            let s = start_counter(s.store_name(source, values), index);
            let start = s.here();
            let (s, _) = rgen_length_test(s, index, source);
            let s = s.open_loop(label, start);
            let item = s.next_temp;
            let s = rgen_item(s, index, source);
            match binding {
                ForBinding::Pattern(p) => keeps_pattern(s, p, item),
                _ => {},
            }
            let s = match binding {
                ForBinding::Identifier(name) => s.store_name(name@, item),
                ForBinding::Pattern(p) => rgen_pattern(s, p, item),
            };
            keeps_block(s, body, body@.len() as int, plain_walk());
        },
        _ => {},
    }
    assert(grows(first, r));
    lemma_grows_all(first, r);
}

pub(crate) proof fn keeps_for_in(s: RView, stmt: Statement, label: Option<Seq<char>>)
    requires
        is_sound(s),
    ensures
        ({
            let r = rgen_for_in(s, stmt, label);
            &&& grows(s, r)
            &&& forall|a: RView| #[trigger] grows(a, s) ==> grows(a, r)
            &&& s.max_reg <= r.max_reg
        }),
    decreases stmt, 4int, 0int, 1int,
{
    broadcast use {
        growth_is_sound,
        step_emit,
        step_patch,
        step_here,
        step_after_name,
        step_take_temp,
        step_store_name,
        step_open_loop,
        step_continue_here,
        step_close_loop,
        rule_start_counter,
        rule_rgen_length_test,
        rule_rgen_item,
        rule_rgen_next_item,
        place_stays,
    };

    lemma_grows_self(s);
    let first = s;
    let r = rgen_for_in(s, stmt, label);
    reveal(for_in_rrule);
    assert(r == for_in_rrule(s, stmt, label));
    match stmt {
        Statement::ForIn { var_name, iterable, body } => {
            let source = s.hidden("keys"@);
            let s = s.after_name();
            let index = s.hidden("ki"@);
            let s = s.after_name();
            let object = s.next_temp;
            keeps_expr(s, iterable);
            let s = rgen_expr(s, iterable);
            let keys = s.next_temp;
            let s = s.take_temp().emit(ROp::GetKeysIter, seq![keys, object]);
            let s = start_counter(s.store_name(source, keys), index);
            let start = s.here();
            let (s, _) = rgen_length_test(s, index, source);
            let s = s.open_loop(label, start);
            let key = s.next_temp;
            let s = rgen_item(s, index, source).store_name(var_name@, key);
            keeps_block(s, body, body@.len() as int, plain_walk());
        },
        _ => {},
    }
    assert(grows(first, r));
    lemma_grows_all(first, r);
}

pub(crate) proof fn keeps_case_tests(
    s: RView,
    cases: Vec<SwitchCase>,
    subject: u16,
    saved: u16,
    i: int,
    jumps: Seq<usize>,
)
    requires
        is_sound(s),
        are_places(s, jumps),
        0 <= i,
        subject <= s.max_reg,
    ensures
        ({
            let r = rgen_case_tests(s, cases, subject, saved, i, jumps);
            &&& grows(s, r.0)
            &&& forall|a: RView| #[trigger] grows(a, s) ==> grows(a, r.0)
            &&& s.max_reg <= r.0.max_reg
            &&& grows(r.0, r.0)
            &&& are_places(r.0, r.1)
            &&& r.1.len() == jumps.len() + tests_from(cases@, i)
        }),
    decreases cases, 1int, cases@.len() - i, 1int,
{
    broadcast use {
        growth_is_sound,
        step_emit,
        step_here,
        step_take_temp,
        step_set_temps,
        place_stays,
        places_stay,
        placeholder_lands,
    };

    lemma_grows_self(s);
    let first = s;
    let r = rgen_case_tests(s, cases, subject, saved, i, jumps);
    reveal(case_tests_rrule);
    assert(r == case_tests_rrule(s, cases, subject, saved, i, jumps));
    if 0 <= i < cases@.len() {
        match cases@[i].test {
            Some(test) => {
                let t = s.next_temp;
                keeps_expr(s, test);
                let s = rgen_expr(s, test);
                let equal = s.next_temp;
                let s = s.take_temp().emit(ROp::StrictEqual, seq![equal, subject, t]);
                let jump = s.here();
                let s = s.emit(ROp::JumpIfTruthy, seq![equal, PLACEHOLDER]).set_temps(saved);
                keeps_case_tests(s, cases, subject, saved, i + 1, jumps.push(jump));
            },
            None => keeps_case_tests(s, cases, subject, saved, i + 1, jumps),
        }
    }
    assert(grows(first, r.0));
    lemma_grows_all(first, r.0);
    lemma_grows_sound(first, r.0);
}

pub(crate) proof fn keeps_case_bodies(s: RView, cases: Vec<SwitchCase>, i: int, starts: Seq<usize>)
    requires
        is_sound(s),
        are_places(s, starts),
        0 <= i,
    ensures
        ({
            let r = rgen_case_bodies(s, cases, i, starts);
            &&& grows(s, r.0)
            &&& forall|a: RView| #[trigger] grows(a, s) ==> grows(a, r.0)
            &&& s.max_reg <= r.0.max_reg
            &&& grows(r.0, r.0)
            &&& are_places(r.0, r.1)
            &&& r.1.len() == starts.len() + (if i < cases@.len() { cases@.len() - i } else { 0 })
        }),
    decreases cases, 1int, cases@.len() - i, 1int,
{
    broadcast use {growth_is_sound, step_here, place_stays, places_stay};

    lemma_grows_self(s);
    let first = s;
    let r = rgen_case_bodies(s, cases, i, starts);
    reveal(case_bodies_rrule);
    assert(r == case_bodies_rrule(s, cases, i, starts));
    if 0 <= i < cases@.len() {
        let body = cases@[i].consequent;
        keeps_walk(s, body, 0, body@.len() as int, freeing_walk(), None);
        keeps_case_bodies(
            rgen_walk(s, body, 0, body@.len() as int, freeing_walk(), None).0,
            cases,
            i + 1,
            starts.push(s.here()),
        );
    }
    assert(grows(first, r.0));
    lemma_grows_all(first, r.0);
    lemma_grows_sound(first, r.0);
}

pub(crate) proof fn keeps_switch(s: RView, stmt: Statement, label: Option<Seq<char>>)
    requires
        is_sound(s),
    ensures
        ({
            let r = rgen_switch(s, stmt, label);
            &&& grows(s, r)
            &&& forall|a: RView| #[trigger] grows(a, s) ==> grows(a, r)
            &&& s.max_reg <= r.max_reg
        }),
    decreases stmt, 4int, 0int, 1int,
{
    broadcast use {
        growth_is_sound,
        step_emit,
        step_patch,
        step_here,
        step_open_loop,
        step_close_switch,
        place_stays,
        places_stay,
        placeholder_lands,
    };

    lemma_grows_self(s);
    let first = s;
    let r = rgen_switch(s, stmt, label);
    reveal(switch_rrule);
    assert(r == switch_rrule(s, stmt, label));
    match stmt {
        Statement::Switch { discriminant, cases } => {
            lemma_zero_is_place(s);
            let s = s.open_loop(label, 0);
            let subject = s.next_temp;
            keeps_expr(s, discriminant);
            let s = rgen_expr(s, discriminant);
            keeps_case_tests(s, cases, subject, s.next_temp, 0, Seq::empty());
            let (s, jumps) = rgen_case_tests(s, cases, subject, s.next_temp, 0, Seq::empty());
            let otherwise = s.here();
            let s = s.emit(ROp::Jump, seq![PLACEHOLDER]);
            keeps_case_bodies(s, cases, 0, Seq::empty());
            let (bodies, starts) = rgen_case_bodies(s, cases, 0, Seq::empty());
            let end = bodies.here();
            assert(is_place(bodies, otherwise));
            assert(are_places(bodies, jumps));
            keeps_patch_cases(first, bodies, cases@, 0, jumps, 0, starts);
            keeps_patch_cases(bodies, bodies, cases@, 0, jumps, 0, starts);
            let s = rpatch_cases(bodies, cases@, 0, jumps, 0, starts);
            lemma_default_case(cases@, cases@.len() as int);
            let s = match default_case(cases@, cases@.len() as int) {
                Some(d) => {
                    assert(is_place(bodies, starts[d]));
                    s.patch(otherwise, starts[d])
                },
                None => s.patch(otherwise, end),
            };
            assert(is_place(s, end));
            assert(grows(first, s.close_switch(end)));
        },
        _ => {},
    }
    assert(grows(first, r));
    lemma_grows_all(first, r);
}

pub(crate) proof fn keeps_catch(
    s: RView,
    stmt: Statement,
    exception: Seq<char>,
    deferred: Option<(Seq<char>, Seq<char>)>,
    last: Option<u16>,
)
    requires
        is_sound(s),
        last_fits(last, s.max_reg),
    ensures
        ({
            let r = rgen_catch(s, stmt, exception, deferred, last);
            &&& grows(s, r.0)
            &&& forall|a: RView| #[trigger] grows(a, s) ==> grows(a, r.0)
            &&& s.max_reg <= r.0.max_reg
            &&& grows(r.0, r.0)
            &&& are_places(r.0, r.1)
            &&& last_fits(r.2, r.0.max_reg)
        }),
    decreases stmt, 3int, 0int, 1int,
{
    broadcast use {
        growth_is_sound,
        step_emit,
        step_here,
        step_store_name,
        step_load_name_new,
        step_open_try,
        step_close_try,
        place_stays,
        places_stay,
        placeholder_lands,
    };

    lemma_grows_self(s);
    let first = s;
    let r = rgen_catch(s, stmt, exception, deferred, last);
    reveal(catch_rrule);
    assert(r == catch_rrule(s, stmt, exception, deferred, last));
    match stmt {
        Statement::Try { catch_param, catch_block, .. } => {
            match catch_block {
                Some(block) => {
                    let s = if deferred is Some {
                        s.open_try(exception, deferred)
                    } else {
                        s
                    };
                    let s = match catch_param {
                        Some(p) => s.load_name_new(exception).store_name(p@, s.next_temp),
                        None => s,
                    };
                    keeps_walk(s, block, 0, block@.len() as int, keeping_walk(), last);
                },
                _ => {},
            }
        },
        _ => {},
    }
    assert(grows(first, r.0));
    lemma_grows_all(first, r.0);
    lemma_grows_sound(first, r.0);
}

pub(crate) proof fn keeps_try(s: RView, stmt: Statement)
    requires
        is_sound(s),
    ensures
        ({
            let r = rgen_try(s, stmt);
            &&& grows(s, r.0)
            &&& forall|a: RView| #[trigger] grows(a, s) ==> grows(a, r.0)
            &&& s.max_reg <= r.0.max_reg
            &&& last_fits(r.1, r.0.max_reg)
        }),
    decreases stmt, 4int, 0int, 1int,
{
    broadcast use {
        growth_is_sound,
        step_emit,
        step_patch,
        step_patch_all,
        step_here,
        step_after_name,
        step_take_temp,
        step_store_name,
        step_open_try,
        step_close_try,
        rule_open_finally,
        rule_resume_return,
        rule_open_thrown,
        rule_note_throw,
        rule_resume_throw,
        place_stays,
        places_stay,
        placeholder_lands,
    };

    lemma_grows_self(s);
    let first = s;
    let r = rgen_try(s, stmt);
    reveal(try_rrule);
    assert(r == try_rrule(s, stmt));
    match stmt {
        Statement::Try { try_block, finally_block, .. } => {
            let exception = s.hidden("exc"@);
            let s = s.after_name();
            let r = s.next_temp;
            let s = s.take_temp().emit(ROp::LoadNull, seq![r]).store_name(exception, r);
            let (s, deferred) = if finally_block is Some {
                let (s, pair) = open_finally(s);
                (s, Some(pair))
            } else {
                (s, None)
            };
            let (s, thrown) = if finally_block is Some {
                open_thrown(s)
            } else {
                (s, Seq::empty())
            };
            let s = s.open_try(exception, deferred);
            keeps_walk(s, try_block, 0, try_block@.len() as int, keeping_walk(), None);
            let (s, last) = rgen_walk(
                s,
                try_block,
                0,
                try_block@.len() as int,
                keeping_walk(),
                None,
            );
            let s = s.emit(ROp::Jump, seq![PLACEHOLDER]);
            let (s, _) = s.close_try();
            keeps_catch(s, stmt, exception, deferred, last);
            let (s, _, _) = rgen_catch(s, stmt, exception, deferred, last);
            let s = if finally_block is Some {
                note_throw(s, thrown)
            } else {
                s
            };
            match (finally_block, deferred) {
                (Some(block), Some((held, flag))) => {
                    keeps_walk(s, block, 0, block@.len() as int, plain_walk(), None);
                },
                _ => {},
            }
        },
        _ => {},
    }
    assert(grows(first, r.0));
    lemma_grows_all(first, r.0);
}

/// The code of a whole program is in order.
pub(crate) proof fn lemma_program_sound(start: RView, program: Program)
    requires
        is_start(start),
    ensures
        ({
            let s = rgen_program(start, program);
            &&& are_laid_out(s.constants)
            &&& is_narrow(s.constants) && s.instructions.len() <= usize::MAX ==> {
                &&& is_whole(s.instructions)
                &&& constants_within(s.instructions, s.constants.len() as int)
                &&& s.max_reg < 0xffff ==> registers_within(s.instructions, s.max_reg + 1)
                &&& s.instructions.len() <= 0xffff ==> jumps_land(s.instructions)
            }
        }),
{
    broadcast use {growth_is_sound, step_emit, step_declare_all};

    reveal(rgen_program);
    lemma_start_is_sound(start);
    lemma_grows_self(start);
    let stmts = program.statements;
    let s = start.declare_all(var_names(stmts, 0), 0);
    keeps_walk(s, stmts, 0, stmts@.len() as int, freeing_walk(), None);
    let t = rgen_program(start, program);
    assert(grows(start, t));
    lemma_sound_code(t);
}

} // verus!
