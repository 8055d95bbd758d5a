//! Where control goes in loops when register code is run.
use vstd::prelude::*;

use crate::ast::{Expression, Statement};
use crate::codegen::PLACEHOLDER;
use crate::object::ObjectView;
use crate::rbranch_laws::lemma_condition_jump;
use crate::rcode::ROp;
use crate::rcodegen::{rfuse_increment, RView};
use crate::reffects::{
    begins, fits, lemma_begin_stands, lemma_begins, lemma_begins_on, lemma_extends_self_after,
    lemma_fewer,
};
use crate::rextend::{
    builds_on, ext_continue_here, ext_emit, ext_free_temps, ext_here, ext_mirror, ext_open_loop,
    ext_rfuse_increment, ext_take_temp, extension_is_extendable, is_extendable, lemma_extends_on,
    lemma_extends_self, waits_in_loop,
};
use crate::rextend_expressions::extends_expr;
use crate::rextend_rules::ext_rfuse_last;
use crate::rextend_statements::{
    extends_block, extends_condition, extends_do_while, extends_for, extends_stmt, extends_while,
};
use crate::rkeep::rule_rfuse_last;
use crate::rkeep_expressions::keeps_expr;
use crate::rkeep_statements::{keeps_block, keeps_condition, keeps_for_update, keeps_stmt};
use crate::rmeaning::{
    at, encoded_all, holding, is_truthy, leads, lemma_emit_stands, lemma_leads_one,
    lemma_leads_step, lemma_patch_stands, lemma_stands_in, lemma_step, stands, step, width_of,
    Datum, Run,
};
use crate::rpatches::{
    is_sent, lemma_close_loop_apart, lemma_close_loop_code, lemma_narrower, lemma_patch_begins,
    lemma_patch_other,
};
use crate::rrules::{
    do_while_rrule, for_rrule, for_update_rrule, freeing_walk, rfuse_last, rgen_block,
    rgen_condition, rgen_do_while, rgen_expr, rgen_for, rgen_for_update, rgen_stmt, rgen_while,
    while_rrule,
};
use crate::rsound::{
    constant_stays, grows, growth_is_sound, is_constant, is_narrow, is_place, is_sound,
    lemma_grows_on, lemma_grows_self, lemma_grows_sound, place_lands, place_stays,
    placeholder_lands, step_continue_here, step_emit, step_free_temps, step_fuse_increment,
    step_here, step_mirror, step_open_loop, step_patch, step_take_temp,
};

verus! {

/// The part of the code of a do-while loop that comes before its condition.
pub open spec fn before_condition(
    s: RView,
    body: Vec<Statement>,
    label: Option<Seq<char>>,
) -> RView {
    rgen_block(s.open_loop(label, s.here()), body, body@.len() as int, freeing_walk()).0.continue_here()
}

/// After the condition of a do-while loop, control goes to the first instruction of its
/// body if the condition holds, and to the first instruction after the loop if not.
pub proof fn law_do_while_repeats(
    s: RView,
    stmt: Statement,
    label: Option<Seq<char>>,
    z: RView,
    m: Run,
)
    requires
        is_sound(s),
        is_extendable(s),
        builds_on(rgen_do_while(s, stmt, label), z),
        fits(z),
        is_narrow(z.constants),
        stmt matches Statement::DoWhile { body, condition } && m.ip == rgen_expr(
            before_condition(s, body, label),
            condition,
        ).instructions.len(),
    ensures
        stmt matches Statement::DoWhile { body, condition } && ({
            let holds = is_truthy(m.regs[before_condition(s, body, label).next_temp as int]);
            let start = s.instructions.len() as int;
            let after = rgen_do_while(s, stmt, label).instructions.len() as int;
            &&& holds ==> leads(z.instructions, z.constants, m, at(m, start))
            &&& !holds ==> leads(z.instructions, z.constants, m, at(m, after))
        }),
{
    broadcast use {
        growth_is_sound,
        step_emit,
        step_patch,
        step_here,
        step_open_loop,
        step_continue_here,
        place_stays,
        place_lands,
        placeholder_lands,
        ext_emit,
        ext_here,
        ext_open_loop,
        ext_continue_here,
        extension_is_extendable,
    };

    reveal(do_while_rrule);
    let t = rgen_do_while(s, stmt, label);
    assert(t == do_while_rrule(s, stmt, label));
    extends_do_while(s, stmt, label);
    lemma_extends_self(s);
    lemma_grows_self(s);
    lemma_narrower(t, z);
    lemma_begins(t, z);
    match stmt {
        Statement::DoWhile { body, condition } => {
            let start = s.here();
            let a = s.open_loop(label, start);
            keeps_block(a, body, body@.len() as int, freeing_walk());
            extends_block(a, body, body@.len() as int, freeing_walk());
            let b = rgen_block(a, body, body@.len() as int, freeing_walk()).0;
            let u = b.continue_here();
            let r = u.next_temp;
            keeps_expr(u, condition);
            extends_expr(u, condition);
            let c = rgen_expr(u, condition);
            let exit = c.here();
            let d = c.emit(ROp::JumpIfNot, seq![r, PLACEHOLDER]);
            let e = d.emit(ROp::Jump, seq![start as u16]);
            let end = e.here();
            let f = e.patch(exit, end);
            lemma_emit_stands(c, ROp::JumpIfNot, seq![r, PLACEHOLDER]);
            lemma_emit_stands(d, ROp::Jump, seq![start as u16]);
            assert(t == f.close_loop(end));
            assert(f.instructions.len() == e.instructions.len() && f.loop_stack == c.loop_stack
                && f.constants == c.constants) by {
                reveal(RView::patch);
            }
            lemma_close_loop_code(f, end);
            assert(exit == c.instructions.len() && end == e.instructions.len());
            lemma_stands_in(
                d.instructions,
                e.instructions,
                exit as int,
                ROp::JumpIfNot,
                seq![r, PLACEHOLDER],
            );
            lemma_patch_stands(e, exit, ROp::JumpIfNot, seq![r, PLACEHOLDER], end);
            assert(seq![r, PLACEHOLDER].update(1, end as u16) =~= seq![r, end as u16]);
            let back = d.instructions.len() as int;
            lemma_stands_in(
                e.instructions,
                f.instructions,
                back,
                ROp::Jump,
                seq![start as u16],
            );
            assert forall|p: usize| #[trigger] waits_in_loop(f.loop_stack.last(), p) implies 0 <= p
                < exit by {
                reveal(builds_on);
                let n = c.loop_stack.len() - 1;
                assert(waits_in_loop(c.loop_stack[n], p));
            }
            assert(grows(c, f) && is_place(f, exit));
            lemma_close_loop_apart(f, end, 0, exit);
            lemma_stands_in(
                f.instructions,
                z.instructions,
                exit as int,
                ROp::JumpIfNot,
                seq![r, end as u16],
            );
            lemma_stands_in(f.instructions, z.instructions, back, ROp::Jump, seq![start as u16]);
            lemma_step(z.instructions, z.constants, m, ROp::JumpIfNot, seq![r, end as u16]);
            let x = encoded_all(ROp::JumpIfNot, seq![r, end as u16]);
            assert(x[0] == r && x[1] == end);
            if is_truthy(m.regs[r as int]) {
                let n = at(m, back);
                lemma_step(z.instructions, z.constants, n, ROp::Jump, seq![start as u16]);
                let y = encoded_all(ROp::Jump, seq![start as u16]);
                assert(y[0] == start);
                lemma_leads_one(z.instructions, z.constants, n, at(n, start as int));
                lemma_leads_step(z.instructions, z.constants, m, n, at(n, start as int));
            } else {
                lemma_leads_one(z.instructions, z.constants, m, at(m, end as int));
            }
        },
        _ => {},
    }
}

/// What leaving a loop makes of its code: the jump of its condition goes past the loop, and
/// the jump back stays as it is.
proof fn lemma_loop_closes(
    c: RView,
    jump: usize,
    op: ROp,
    given: Seq<u16>,
    x: RView,
    back: ROp,
    operands: Seq<u16>,
    z: RView,
)
    requires
        ({
            let e = x.emit(back, operands);
            let t = e.patch(jump, e.here()).close_loop(e.here());
            &&& begins(t, z)
            &&& is_sound(e)
            &&& is_place(e, x.here())
            &&& is_place(e, jump)
        }),
        fits(z),
        is_narrow(z.constants),
        builds_on(c, x),
        c.loop_stack.len() < x.loop_stack.len(),
        stands(c.instructions, jump as int, op, given),
        is_sent(op, given),
        jump + width_of(op) == c.instructions.len(),
        back != ROp::MakeClosure,
    ensures
        ({
            let e = x.emit(back, operands);
            let t = e.patch(jump, e.here()).close_loop(e.here());
            &&& t.instructions.len() == e.instructions.len()
            &&& begins(c.patch(jump, e.here()), z)
            &&& stands(z.instructions, x.instructions.len() as int, back, operands)
            &&& c.instructions.len() <= x.instructions.len()
            &&& x.constants == t.constants
        }),
{
    broadcast use {step_patch, step_here, place_stays};

    let e = x.emit(back, operands);
    let end = e.here();
    let f = e.patch(jump, end);
    let t = f.close_loop(end);
    lemma_emit_stands(x, back, operands);
    assert(f == (RView { instructions: f.instructions, ..e }) && f.instructions.len()
        == e.instructions.len()) by {
        reveal(RView::patch);
    }
    lemma_close_loop_code(f, end);
    assert(end == e.instructions.len() && x.here() == x.instructions.len()) by {
        reveal(RView::here);
    }
    lemma_grows_self(e);
    assert(fits(x) && c.instructions.len() <= x.instructions.len()) by {
        reveal(builds_on);
    }
    lemma_begins(c, x);
    assert(begins(x, e));
    lemma_begins_on(c, x, e);
    lemma_patch_begins(c, e, jump, op, given, end);
    lemma_begin_stands(c, e, jump as int, op, given);
    lemma_patch_other(e, jump, op, given, end, x.instructions.len() as int, back, operands);
    lemma_patch_stands(e, jump, op, given, end);
    assert forall|p: usize| #[trigger] waits_in_loop(
        f.loop_stack.last(),
        p,
    ) implies c.instructions.len() <= p < x.here() by {
        reveal(builds_on);
        let n = x.loop_stack.len() - 1;
        assert(waits_in_loop(x.loop_stack[n], p));
    }
    assert(is_narrow(f.constants)) by {
        assert forall|i: int| 0 <= i < f.constants.len() implies (
        #[trigger] f.constants[i] matches ObjectView::Function(g) ==> g.closure_captures.len()
            <= 255) by {
            assert(z.constants[i] == f.constants[i]);
        }
    }
    assert(grows(e, f) && is_place(f, x.here()));
    lemma_grows_sound(e, f);
    lemma_close_loop_apart(f, end, c.instructions.len() as int, x.here());
    let g = c.patch(jump, end);
    assert(g.instructions.len() == c.instructions.len()) by {
        reveal(RView::patch);
    }
    assert(begins(g, t)) by {
        assert forall|i: int| 0 <= i < g.instructions.len() implies t.instructions[i]
            == #[trigger] g.instructions[i] by {
            assert(f.instructions[i] == g.instructions[i]);
        }
    }
    lemma_begins_on(g, t, z);
    lemma_stands_in(
        f.instructions,
        z.instructions,
        x.instructions.len() as int,
        back,
        operands,
    );
}

/// The body of a while loop, without an increment at its end that is part of the jump back.
pub open spec fn while_body_end(
    s: RView,
    condition: Expression,
    body: Vec<Statement>,
    label: Option<Seq<char>>,
) -> RView {
    let c = rgen_condition(s, condition).0;
    let (a, fused) = rfuse_last(c.open_loop(label, s.here()), body@);
    rgen_block(
        a,
        body,
        if fused is Some {
            body@.len() - 1
        } else {
            body@.len() as int
        },
        freeing_walk(),
    ).0
}

/// A while loop begins with its condition, whose jump goes to the first instruction after
/// the loop. After the body control goes back to the condition. An increment at the end of
/// the body may be part of the jump back.
pub proof fn law_while_repeats(
    s: RView,
    stmt: Statement,
    label: Option<Seq<char>>,
    z: RView,
    m: Run,
)
    requires
        is_sound(s),
        is_extendable(s),
        begins(rgen_while(s, stmt, label), z),
        fits(z),
        is_narrow(z.constants),
        stmt matches Statement::While { condition, body } && m.ip == while_body_end(
            s,
            condition,
            body,
            label,
        ).instructions.len(),
    ensures
        stmt matches Statement::While { condition, body } && ({
            let (c, jump) = rgen_condition(s, condition);
            let t = rgen_while(s, stmt, label);
            let start = s.instructions.len() as int;
            &&& begins(c.patch(jump, t.instructions.len() as usize), z)
            &&& c.instructions.len() <= m.ip
            &&& match rfuse_last(c.open_loop(label, s.here()), body@).1 {
                None => step(z.instructions, z.constants, m) == Some(at(m, start)),
                Some((r, idx)) => forall|a: int, k: i64| #[trigger]
                    sum_of(m.regs[r as int], t.constants[idx as int], a, k) ==> step(
                        z.instructions,
                        z.constants,
                        m,
                    ) == Some(holding(m, r as int, Datum::Number(a + k), start)),
            }
        }),
{
    broadcast use {
        growth_is_sound,
        step_emit,
        step_here,
        step_open_loop,
        rule_rfuse_last,
        place_stays,
        constant_stays,
        place_lands,
        ext_emit,
        ext_here,
        ext_open_loop,
        ext_rfuse_last,
        extension_is_extendable,
    };

    reveal(while_rrule);
    let t = rgen_while(s, stmt, label);
    assert(t == while_rrule(s, stmt, label));
    lemma_extends_self(s);
    lemma_grows_self(s);
    extends_while(s, stmt, label);
    lemma_fewer(t, z);
    match stmt {
        Statement::While { condition, body } => {
            let start = s.here();
            keeps_condition(s, condition);
            extends_condition(s, condition);
            let (c, jump) = rgen_condition(s, condition);
            lemma_extends_self_after(s, c);
            let (a, fused) = rfuse_last(c.open_loop(label, start), body@);
            let n = if fused is Some {
                body@.len() - 1
            } else {
                body@.len() as int
            };
            keeps_block(a, body, n, freeing_walk());
            extends_block(a, body, n, freeing_walk());
            let b = rgen_block(a, body, n, freeing_walk()).0;
            let (back, operands) = match fused {
                Some((r, idx)) => (ROp::IncrementRegAndJump, seq![r, idx, start as u16]),
                None => (ROp::Jump, seq![start as u16]),
            };
            let e = b.emit(back, operands);
            assert(t == e.patch(jump, e.here()).close_loop(e.here()));
            assert(c.instructions.len() <= t.instructions.len()) by {
                lemma_emit_stands(b, back, operands);
                assert(e.patch(jump, e.here()).loop_stack == e.loop_stack && e.patch(
                    jump,
                    e.here(),
                ).instructions.len() == e.instructions.len()) by {
                    reveal(RView::patch);
                }
                lemma_close_loop_code(e.patch(jump, e.here()), e.here());
            }
            let (op, given) = lemma_condition_jump(s, condition);
            lemma_loop_closes(c, jump, op, given, b, back, operands, z);
            lemma_step(z.instructions, z.constants, m, back, operands);
            let x = encoded_all(back, operands);
            match fused {
                Some((r, idx)) => {
                    assert(x[0] == r && x[1] == idx && x[2] == start);
                    assert(idx < b.constants.len()) by {
                        assert(is_constant(b, idx));
                    }
                    assert(z.constants[idx as int] == t.constants[idx as int]);
                },
                None => {
                    assert(x[0] == start);
                },
            }
        },
        _ => {},
    }
}

/// Whether a value and a constant are given integers.
pub open spec fn sum_of(d: Datum, constant: ObjectView, a: int, k: i64) -> bool {
    d == Datum::Number(a) && constant == ObjectView::Integer(k)
}

/// The code of a `for` loop up to its condition.
pub open spec fn for_start(s: RView, init: Option<Box<Statement>>) -> RView {
    match init {
        Some(first) => rgen_stmt(s, *first).0,
        None => s,
    }
}

/// The condition of a `for` loop; one that is missing holds.
pub open spec fn for_condition(s: RView, condition: Option<Expression>) -> (RView, usize) {
    match condition {
        Some(c) => rgen_condition(s, c),
        None => {
            let r = s.next_temp;
            let a = s.take_temp().emit(ROp::LoadTrue, seq![r]);
            (a.emit(ROp::JumpIfNot, seq![r, PLACEHOLDER]), a.here())
        },
    }
}

/// The code of a `for` loop up to its update, which is where `continue` goes.
pub open spec fn for_body_end(
    s: RView,
    init: Option<Box<Statement>>,
    condition: Option<Expression>,
    body: Vec<Statement>,
    label: Option<Seq<char>>,
) -> RView {
    let start = for_start(s, init);
    let c = for_condition(start, condition).0;
    rgen_block(
        c.open_loop(label, start.here()),
        body,
        body@.len() as int,
        freeing_walk(),
    ).0.continue_here()
}

/// The jump back of a loop, with the state before it. An increment may be part of it.
pub open spec fn goes_back(t: RView, x: RView, start: usize, back: ROp, operands: Seq<u16>) -> bool {
    &&& t == x.emit(back, operands)
    &&& {
        ||| back == ROp::Jump && operands == seq![start as u16]
        ||| back == ROp::IncrementRegAndJump && operands.len() == 3 && operands[2] == start as u16
    }
}

proof fn lemma_for_update_back(u: RView, update: Expression, start: usize) -> (r: (
    RView,
    ROp,
    Seq<u16>,
))
    requires
        is_sound(u),
        is_extendable(u),
        is_place(u, start),
    ensures
        goes_back(rgen_for_update(u, update, start), r.0, start, r.1, r.2),
        builds_on(u, r.0),
        grows(u, r.0),
        grows(r.0, rgen_for_update(u, update, start)),
        r.0.loop_stack.len() == u.loop_stack.len(),
{
    broadcast use {
        growth_is_sound,
        step_emit,
        step_free_temps,
        step_mirror,
        step_fuse_increment,
        place_stays,
        place_lands,
        constant_stays,
        ext_emit,
        ext_free_temps,
        ext_mirror,
        ext_rfuse_increment,
        extension_is_extendable,
    };

    reveal(for_update_rrule);
    lemma_extends_self(u);
    lemma_grows_self(u);
    match rfuse_increment(u, update) {
        (a, Some((r, idx, name))) => if a.globals.has(name) {
            let x = a.emit(ROp::AddRegConst, seq![r, r, idx]).mirror(name, r);
            lemma_grows_sound(u, x);
            (x, ROp::Jump, seq![start as u16])
        } else {
            lemma_grows_sound(u, a);
            (a, ROp::IncrementRegAndJump, seq![r, idx, start as u16])
        },
        (a, None) => {
            keeps_expr(a, update);
            extends_expr(a, update);
            let x = rgen_expr(a, update).free_temps();
            lemma_grows_sound(u, x);
            (x, ROp::Jump, seq![start as u16])
        },
    }
}

/// The condition of a `for` loop comes first after its initialization, and its jump goes to
/// the first instruction after the loop. The update follows the body, and control goes from
/// there back to the condition. The state before the jump back is returned.
pub proof fn law_for_repeats(
    s: RView,
    stmt: Statement,
    label: Option<Seq<char>>,
    z: RView,
) -> (back: (RView, ROp, Seq<u16>))
    requires
        is_sound(s),
        is_extendable(s),
        begins(rgen_for(s, stmt, label), z),
        fits(z),
        is_narrow(z.constants),
        stmt is For,
    ensures
        stmt matches Statement::For { init, condition, update, body } && ({
            let first = for_start(s, init);
            let start = first.instructions.len() as int;
            let (c, jump) = for_condition(first, condition);
            let u = for_body_end(s, init, condition, body, label);
            let t = rgen_for(s, stmt, label);
            let (x, op, operands) = back;
            &&& begins(c.patch(jump, t.instructions.len() as usize), z)
            &&& builds_on(u, x)
            &&& match update {
                None => x == u && op == ROp::Jump && operands == seq![start as u16],
                Some(e) => goes_back(
                    rgen_for_update(u, e, start as usize),
                    x,
                    start as usize,
                    op,
                    operands,
                ),
            }
            &&& forall|m: Run|
                m.ip == x.instructions.len() && op == ROp::Jump ==> #[trigger] step(
                    z.instructions,
                    z.constants,
                    m,
                ) == Some(at(m, start))
            &&& forall|m: Run, a: int, k: i64|
                m.ip == x.instructions.len() && op != ROp::Jump && #[trigger] sum_of(
                    m.regs[operands[0] as int],
                    z.constants[operands[1] as int],
                    a,
                    k,
                ) ==> #[trigger] step(z.instructions, z.constants, m) == Some(
                    holding(m, operands[0] as int, Datum::Number(a + k), start),
                )
        }),
{
    broadcast use {
        growth_is_sound,
        step_emit,
        step_here,
        step_take_temp,
        step_open_loop,
        step_continue_here,
        place_stays,
        place_lands,
        placeholder_lands,
        ext_emit,
        ext_here,
        ext_take_temp,
        ext_open_loop,
        ext_continue_here,
        extension_is_extendable,
    };

    reveal(for_rrule);
    let t = rgen_for(s, stmt, label);
    assert(t == for_rrule(s, stmt, label));
    lemma_extends_self(s);
    lemma_grows_self(s);
    extends_for(s, stmt, label);
    lemma_fewer(t, z);
    match stmt {
        Statement::For { init, condition, update, body } => {
            match init {
                Some(f) => {
                    keeps_stmt(s, *f);
                    extends_stmt(s, *f);
                },
                None => {},
            }
            let first = for_start(s, init);
            lemma_extends_self_after(s, first);
            let start = first.here();
            match condition {
                Some(c) => {
                    keeps_condition(first, c);
                    extends_condition(first, c);
                },
                None => {},
            }
            let (c, jump) = for_condition(first, condition);
            lemma_extends_self_after(first, c);
            lemma_grows_sound(s, first);
            assert(grows(first, c));
            lemma_grows_sound(first, c);
            let a = c.open_loop(label, start);
            keeps_block(a, body, body@.len() as int, freeing_walk());
            extends_block(a, body, body@.len() as int, freeing_walk());
            let b = rgen_block(a, body, body@.len() as int, freeing_walk()).0;
            let u = b.continue_here();
            lemma_extends_self_after(c, u);
            assert(grows(c, u));
            lemma_grows_sound(c, u);
            assert(is_place(u, start));
            let (x, back, operands) = match update {
                Some(e) => {
                    keeps_for_update(u, e, start);
                    lemma_for_update_back(u, e, start)
                },
                None => (u, ROp::Jump, seq![start as u16]),
            };
            let e = x.emit(back, operands);
            assert(t == e.patch(jump, e.here()).close_loop(e.here()));
            lemma_extends_on(c, u, x);
            assert(c.instructions.len() <= x.instructions.len() <= t.instructions.len()) by {
                lemma_emit_stands(x, back, operands);
                assert(e.patch(jump, e.here()).loop_stack == e.loop_stack && e.patch(
                    jump,
                    e.here(),
                ).instructions.len() == e.instructions.len()) by {
                    reveal(RView::patch);
                }
                lemma_close_loop_code(e.patch(jump, e.here()), e.here());
            }
            let (op, given) = match condition {
                Some(k) => lemma_condition_jump(first, k),
                None => {
                    let r = first.next_temp;
                    lemma_emit_stands(first.take_temp(), ROp::LoadTrue, seq![r]);
                    lemma_emit_stands(
                        first.take_temp().emit(ROp::LoadTrue, seq![r]),
                        ROp::JumpIfNot,
                        seq![r, PLACEHOLDER],
                    );
                    (ROp::JumpIfNot, seq![r, PLACEHOLDER])
                },
            };
            assert(grows(x, e));
            lemma_grows_on(c, u, x);
            lemma_grows_on(c, x, e);
            assert(is_place(x, x.here()) && is_place(c, jump));
            lemma_loop_closes(c, jump, op, given, x, back, operands, z);
            let y = encoded_all(back, operands);
            assert forall|m: Run|
                m.ip == x.instructions.len() && back == ROp::Jump implies #[trigger] step(
                z.instructions,
                z.constants,
                m,
            ) == Some(at(m, start as int)) by {
                lemma_step(z.instructions, z.constants, m, back, operands);
                assert(y[0] == start);
            }
            assert forall|m: Run, a: int, k: i64|
                m.ip == x.instructions.len() && back != ROp::Jump && #[trigger] sum_of(
                    m.regs[operands[0] as int],
                    z.constants[operands[1] as int],
                    a,
                    k,
                ) implies #[trigger] step(z.instructions, z.constants, m) == Some(
                holding(m, operands[0] as int, Datum::Number(a + k), start as int),
            ) by {
                lemma_step(z.instructions, z.constants, m, back, operands);
                assert(y[0] == operands[0] && y[1] == operands[1] && y[2] == start);
            }
            (x, back, operands)
        },
        _ => (s, ROp::Jump, Seq::empty()),
    }
}

} // verus!
