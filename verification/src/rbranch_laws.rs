//! Where control goes at conditions when register code is run.
use vstd::prelude::*;

use crate::ast::Expression;
use crate::codegen::PLACEHOLDER;
use crate::rcode::ROp;
use crate::rcodegen::{numeric_constant, rfuse_compare, rfuse_mod_eq, RView};
use crate::reffects::{
    begins, fits, lemma_begin_stands, lemma_begins, lemma_begins_on, lemma_extends_self_after,
    lemma_fewer, lemma_leads_on, lemma_run_emit,
};
use crate::rextend::{
    builds_on, ext_add_int, ext_copy_reg, ext_emit, ext_here, ext_patch, ext_rfuse_compare,
    ext_rfuse_mod_eq, ext_take_temp, extension_is_extendable, is_extendable, is_stocked,
    lemma_extends_self,
};
use crate::rextend_expressions::{extends_expr, extends_expr_into};
use crate::rextend_statements::{extends_block, extends_condition};
use crate::rmeaning::{
    at, encoded_all, holding, is_nullish, is_truthy, leads, lemma_emit_stands, lemma_int_constant,
    lemma_leads_one, lemma_leads_self, lemma_patch_stands, lemma_stands_in, lemma_step, remainder,
    stands, step, width_of, Datum, Run,
};
use crate::rpatches::{is_sent, lemma_patch_begins, lemma_patch_later, lemma_patch_other, same_from};
use crate::rrules::{
    condition_rrule, copy_last, if_rrule, logical_rrule, plain_walk, rgen_block, rgen_condition,
    rgen_expr, rgen_expr_into, rgen_if, rgen_logical,
};

verus! {

/// Whether the test of a condition is one instruction.
pub open spec fn is_fused(s: RView, c: Expression) -> bool {
    rfuse_compare(s, c).1 is Some || rfuse_mod_eq(rfuse_compare(s, c).0, c).1 is Some
}

/// The state in which a condition that is not one instruction is compiled.
pub open spec fn before_test(s: RView, c: Expression) -> RView {
    rfuse_mod_eq(rfuse_compare(s, c).0, c).0
}

/// The jump of a condition is the last instruction of its code.
pub proof fn lemma_condition_jump(s: RView, c: Expression) -> (r: (ROp, Seq<u16>))
    requires
        is_extendable(s),
        rgen_condition(s, c).0.instructions.len() <= 0xffff,
    ensures
        ({
            let (t, jump) = rgen_condition(s, c);
            &&& stands(t.instructions, jump as int, r.0, r.1)
            &&& is_sent(r.0, r.1)
            &&& jump + width_of(r.0) == t.instructions.len()
            &&& s.instructions.len() <= jump
            &&& r.0 != ROp::MakeClosure
        }),
{
    broadcast use {ext_rfuse_compare, ext_rfuse_mod_eq, ext_emit, ext_here, extension_is_extendable};

    reveal(condition_rrule);
    lemma_extends_self(s);
    extends_condition(s, c);
    assert(rgen_condition(s, c) == condition_rrule(s, c));
    match rfuse_compare(s, c) {
        (a, Some((r, idx, or_equal))) => {
            let op = if or_equal {
                ROp::TestLeConstJump
            } else {
                ROp::TestLtConstJump
            };
            lemma_emit_stands(a, op, seq![r, idx, PLACEHOLDER]);
            (op, seq![r, idx, PLACEHOLDER])
        },
        (a, None) => match rfuse_mod_eq(a, c) {
            (b, Some((r, n, k))) => {
                let op = ROp::ModRegConstStrictEqConstJump;
                lemma_emit_stands(b, op, seq![r, n, k, PLACEHOLDER]);
                (op, seq![r, n, k, PLACEHOLDER])
            },
            (b, None) => {
                extends_expr(b, c);
                let d = rgen_expr(b, c);
                lemma_emit_stands(d, ROp::JumpIfNot, seq![b.next_temp, PLACEHOLDER]);
                (ROp::JumpIfNot, seq![b.next_temp, PLACEHOLDER])
            },
        },
    }
}

/// A condition that is evaluated lets control go on if its value is truthy, and to where
/// its jump was sent if not.
pub proof fn law_condition_decides(s: RView, c: Expression, z: RView, end: usize, m: Run)
    requires
        is_extendable(s),
        !is_fused(s, c),
        begins(rgen_condition(s, c).0.patch(rgen_condition(s, c).1, end), z),
        fits(z),
        end <= 0xffff,
        m.ip == rgen_expr(before_test(s, c), c).instructions.len(),
    ensures
        before_test(s, c).instructions == s.instructions,
        before_test(s, c).next_temp == s.next_temp,
        step(z.instructions, z.constants, m) == Some(
            at(
                m,
                if is_truthy(m.regs[s.next_temp as int]) {
                    rgen_condition(s, c).0.instructions.len() as int
                } else {
                    end as int
                },
            ),
        ),
{
    broadcast use {ext_rfuse_compare, ext_rfuse_mod_eq, ext_emit, ext_here, extension_is_extendable};

    reveal(condition_rrule);
    lemma_extends_self(s);
    extends_condition(s, c);
    assert(rgen_condition(s, c) == condition_rrule(s, c));
    let b = before_test(s, c);
    lemma_test_scope(s, c);
    extends_expr(b, c);
    let d = rgen_expr(b, c);
    let r = b.next_temp;
    let (t, jump) = rgen_condition(s, c);
    lemma_emit_stands(d, ROp::JumpIfNot, seq![r, PLACEHOLDER]);
    assert(t.patch(jump, end).instructions.len() == t.instructions.len()) by {
        reveal(RView::patch);
    }
    lemma_patch_stands(t, jump, ROp::JumpIfNot, seq![r, PLACEHOLDER], end);
    assert(seq![r, PLACEHOLDER].update(1, end as u16) =~= seq![r, end as u16]);
    lemma_begin_stands(t.patch(jump, end), z, m.ip, ROp::JumpIfNot, seq![r, end as u16]);
    lemma_step(z.instructions, z.constants, m, ROp::JumpIfNot, seq![r, end as u16]);
    let x = encoded_all(ROp::JumpIfNot, seq![r, end as u16]);
    assert(x[0] == r && x[1] == end);
}

/// Looking for a test that is one instruction adds no code.
proof fn lemma_test_scope(s: RView, c: Expression)
    ensures
        ({
            let a = rfuse_compare(s, c).0;
            let b = rfuse_mod_eq(a, c).0;
            &&& a.instructions == s.instructions
            &&& a.next_temp == s.next_temp
            &&& a.locals == s.locals
            &&& b.instructions == s.instructions
            &&& b.next_temp == s.next_temp
            &&& b.locals == s.locals
        }),
{
    reveal(rfuse_compare);
    reveal(rfuse_mod_eq);
    reveal(numeric_constant);
    reveal(RView::add_int);
    reveal(RView::add_float);
    reveal(RView::add_constant);
}

/// The condition `local < number` or `local <= number` lets control go on if that holds
/// of the local, and to where its jump was sent if not.
pub proof fn law_comparison_decides(
    s: RView,
    c: Expression,
    z: RView,
    end: usize,
    m: Run,
    value: int,
)
    requires
        is_extendable(s),
        is_stocked(s),
        begins(rgen_condition(s, c).0.patch(rgen_condition(s, c).1, end), z),
        fits(z),
        end <= 0xffff,
        m.ip == s.instructions.len(),
        c matches Expression::Infix { left, operator, right } && ({
            &&& operator@ == "<"@ || operator@ == "<="@
            &&& *right is Integer
            &&& *left matches Expression::Identifier(name) && s.locals.has(name@)
                && m.regs[s.locals.map[name@] as int] == Datum::Number(value)
        }),
    ensures
        c matches Expression::Infix { left, operator, right } && (
        *right matches Expression::Integer(k) && step(z.instructions, z.constants, m) == Some(
            at(
                m,
                if value < k || operator@ == "<="@ && value == k {
                    rgen_condition(s, c).0.instructions.len() as int
                } else {
                    end as int
                },
            ),
        )),
{
    reveal(condition_rrule);
    assert(rgen_condition(s, c) == condition_rrule(s, c));
    reveal(rfuse_compare);
    reveal(numeric_constant);
    reveal_strlit("<");
    reveal_strlit("<=");
    match c {
        Expression::Infix { left, operator, right } => match (*left, *right) {
            (Expression::Identifier(name), Expression::Integer(k)) => {
                let (a, idx) = s.add_int(k);
                let r = s.locals.map[name@];
                let or_equal = operator@ == "<="@;
                assert("<"@.len() == 1 && "<="@.len() == 2);
                let op = if or_equal {
                    ROp::TestLeConstJump
                } else {
                    ROp::TestLtConstJump
                };
                let (t, jump) = rgen_condition(s, c);
                assert(a.instructions == s.instructions) by {
                    reveal(RView::add_int);
                    reveal(RView::add_constant);
                }
                lemma_emit_stands(a, op, seq![r, idx, PLACEHOLDER]);
                assert(t == a.emit(op, seq![r, idx, PLACEHOLDER]));
                assert(jump == a.instructions.len()) by {
                    reveal(RView::here);
                    reveal(RView::patch);
                }
                lemma_patch_stands(t, jump, op, seq![r, idx, PLACEHOLDER], end);
                let y = t.patch(jump, end);
                assert(seq![r, idx, PLACEHOLDER].update(2, end as u16) =~= seq![
                    r,
                    idx,
                    end as u16,
                ]);
                lemma_int_constant(s, k);
                assert(z.constants[idx as int] == a.constants[idx as int]);
                lemma_begin_stands(y, z, m.ip, op, seq![r, idx, end as u16]);
                lemma_step(z.instructions, z.constants, m, op, seq![r, idx, end as u16]);
                let x = encoded_all(op, seq![r, idx, end as u16]);
                assert(x[0] == r && x[1] == idx && x[2] == end);
            },
            _ => {},
        },
        _ => {},
    }
}

/// The condition `local % number === number` lets control go on if that holds of the
/// local, and to where its jump was sent if not.
pub proof fn law_divisibility_decides(
    s: RView,
    c: Expression,
    z: RView,
    end: usize,
    m: Run,
    value: int,
)
    requires
        is_extendable(s),
        is_stocked(s),
        begins(rgen_condition(s, c).0.patch(rgen_condition(s, c).1, end), z),
        fits(z),
        end <= 0xffff,
        m.ip == s.instructions.len(),
        c matches Expression::Infix { left, operator, right } && operator@ == "==="@
            && *right is Integer && (*left matches Expression::Infix {
            left: dividend,
            operator: inner,
            right: divisor,
        } && inner@ == "%"@ && (*divisor matches Expression::Integer(d) && d != 0) && (
        *dividend matches Expression::Identifier(name) && s.locals.has(name@)
            && m.regs[s.locals.map[name@] as int] == Datum::Number(value))),
    ensures
        c matches Expression::Infix { left, right, .. } && (*left matches Expression::Infix {
            right: divisor,
            ..
        } && (*divisor matches Expression::Integer(d) && (*right matches Expression::Integer(k)
            && step(z.instructions, z.constants, m) == Some(
            at(
                m,
                if remainder(value, d as int) == k {
                    rgen_condition(s, c).0.instructions.len() as int
                } else {
                    end as int
                },
            ),
        )))),
{
    broadcast use ext_add_int;

    reveal(condition_rrule);
    assert(rgen_condition(s, c) == condition_rrule(s, c));
    reveal(rfuse_compare);
    reveal(rfuse_mod_eq);
    reveal(numeric_constant);
    lemma_extends_self(s);
    match c {
        Expression::Infix { left, right, .. } => match (*left, *right) {
            (
                Expression::Infix { left: dividend, right: divisor, .. },
                Expression::Integer(k),
            ) => match (*dividend, *divisor) {
                (Expression::Identifier(name), Expression::Integer(d)) => {
                    let (a, i) = s.add_int(d);
                    let (b, j) = a.add_int(k);
                    let r = s.locals.map[name@];
                    let op = ROp::ModRegConstStrictEqConstJump;
                    let (t, jump) = rgen_condition(s, c);
                    assert(b.instructions == s.instructions && a.constants.len()
                        <= b.constants.len()) by {
                        reveal(RView::add_int);
                        reveal(RView::add_constant);
                    }
                    lemma_emit_stands(b, op, seq![r, i, j, PLACEHOLDER]);
                    assert(t == b.emit(op, seq![r, i, j, PLACEHOLDER]));
                    assert(jump == b.instructions.len() && t.patch(jump, end).constants
                        == b.constants) by {
                        reveal(RView::here);
                        reveal(RView::patch);
                    }
                    lemma_patch_stands(t, jump, op, seq![r, i, j, PLACEHOLDER], end);
                    let y = t.patch(jump, end);
                    assert(seq![r, i, j, PLACEHOLDER].update(3, end as u16) =~= seq![
                        r,
                        i,
                        j,
                        end as u16,
                    ]);
                    lemma_int_constant(s, d);
                    lemma_int_constant(a, k);
                    assert(b.constants[i as int] == a.constants[i as int]) by {
                        reveal(RView::add_int);
                        reveal(RView::add_constant);
                    }
                    assert(z.constants[i as int] == b.constants[i as int]);
                    assert(z.constants[j as int] == b.constants[j as int]);
                    lemma_begin_stands(y, z, m.ip, op, seq![r, i, j, end as u16]);
                    lemma_step(z.instructions, z.constants, m, op, seq![r, i, j, end as u16]);
                    let x = encoded_all(op, seq![r, i, j, end as u16]);
                    assert(x[0] == r && x[1] == i && x[2] == j && x[3] == end);
                },
                _ => {},
            },
            _ => {},
        },
        _ => {},
    }
}

/// The consequence of an `if` with its value moved to where it belongs.
pub open spec fn consequence_end(s: RView, e: Expression, dst: u16) -> RView {
    match e {
        Expression::If { condition, consequence, .. } => {
            let c = rgen_condition(s, *condition).0;
            let (b, last) = rgen_block(c, consequence, consequence@.len() as int, plain_walk());
            copy_last(b, dst, last)
        },
        _ => s,
    }
}

/// The condition of an `if` is followed by its consequence; where the condition does not
/// hold, control goes to the alternative. From the end of the consequence control goes
/// past the alternative. Without an alternative the value is null. The state that is
/// returned is that in which the alternative is compiled.
pub proof fn law_if_chooses(s: RView, e: Expression, dst: u16, z: RView) -> (y: RView)
    requires
        is_extendable(s),
        begins(rgen_if(s, e, dst), z),
        fits(z),
        e is If,
    ensures
        e matches Expression::If { condition, consequence, alternative } && ({
            let (c, jump) = rgen_condition(s, *condition);
            let x = consequence_end(s, e, dst);
            let t = rgen_if(s, e, dst);
            &&& begins(c.patch(jump, y.instructions.len() as usize), z)
            &&& y.instructions.len() <= 0xffff
            &&& same_from(x, z, c.instructions.len() as int)
            &&& forall|m: Run|
                m.ip == x.instructions.len() ==> #[trigger] step(z.instructions, z.constants, m)
                    == Some(at(m, t.instructions.len() as int))
            &&& match alternative {
                Some(alt) => {
                    let (v, last) = rgen_block(y, alt, alt@.len() as int, plain_walk());
                    &&& same_from(copy_last(v, dst, last), z, y.instructions.len() as int)
                    &&& copy_last(v, dst, last).instructions.len() == t.instructions.len()
                },
                None => forall|m: Run|
                    m.ip == y.instructions.len() ==> #[trigger] step(
                        z.instructions,
                        z.constants,
                        m,
                    ) == Some(holding(m, dst as int, Datum::Null, t.instructions.len() as int)),
            }
        }),
{
    broadcast use {ext_copy_reg, ext_emit, ext_here, ext_patch, extension_is_extendable};

    reveal(if_rrule);
    let t = rgen_if(s, e, dst);
    assert(t == if_rrule(s, e, dst));
    lemma_extends_self(s);
    crate::rextend_expressions::extends_if(s, e, dst);
    lemma_fewer(t, z);
    match e {
        Expression::If { condition, consequence, alternative } => {
            extends_condition(s, *condition);
            let (c, jump) = rgen_condition(s, *condition);
            lemma_extends_self_after(s, c);
            extends_block(c, consequence, consequence@.len() as int, plain_walk());
            let (b, last) = rgen_block(c, consequence, consequence@.len() as int, plain_walk());
            let x = copy_last(b, dst, last);
            let over = x.here();
            let w = x.emit(ROp::Jump, seq![PLACEHOLDER]);
            let alt_start = w.here();
            let y = w.patch(jump, alt_start);
            lemma_extends_self_after(s, x);
            let v = match alternative {
                Some(alt) => {
                    lemma_extends_self_after(s, y);
                    extends_block(y, alt, alt@.len() as int, plain_walk());
                    let (d, last) = rgen_block(y, alt, alt@.len() as int, plain_walk());
                    copy_last(d, dst, last)
                },
                None => y.emit(ROp::LoadNull, seq![dst]),
            };
            assert(t == v.patch(over, v.here()));
            assert(v.instructions.len() == t.instructions.len()) by {
                reveal(RView::patch);
            }
            lemma_extends_self_after(s, y);
            assert(builds_on(c, x) && builds_on(y, v));
            lemma_emit_stands(x, ROp::Jump, seq![PLACEHOLDER]);
            assert(y.instructions.len() == w.instructions.len()) by {
                reveal(RView::patch);
            }
            assert(v.instructions.len() >= y.instructions.len() && x.instructions.len()
                >= c.instructions.len());
            assert(t.constants == v.constants) by {
                reveal(RView::patch);
            }
            assert(fits(v));
            lemma_begins(y, v);
            assert(fits(y));
            assert(y.constants == w.constants) by {
                reveal(RView::patch);
            }
            assert(fits(x) && fits(c)) by {
                lemma_begins_small(c, x);
            }
            lemma_begins(c, x);
            let (op, given) = lemma_condition_jump(s, *condition);
            assert(begins(x, w));
            lemma_begins_on(c, x, w);
            lemma_patch_begins(c, w, jump, op, given, alt_start);
            lemma_begins_on(c.patch(jump, alt_start), y, v);
            assert(c.patch(jump, alt_start).instructions.len() == c.instructions.len()) by {
                reveal(RView::patch);
            }
            lemma_patch_later(c.patch(jump, alt_start), v, over, v.here());
            lemma_begins_on(c.patch(jump, alt_start), t, z);
            // the jump over the alternative
            lemma_begin_stands(c, w, jump as int, op, given);
            lemma_patch_other(
                w,
                jump,
                op,
                given,
                alt_start,
                over as int,
                ROp::Jump,
                seq![PLACEHOLDER],
            );
            lemma_patch_stands(w, jump, op, given, alt_start);
            lemma_begin_stands(y, v, over as int, ROp::Jump, seq![PLACEHOLDER]);
            lemma_patch_stands(v, over, ROp::Jump, seq![PLACEHOLDER], v.here());
            let end = v.instructions.len();
            assert(seq![PLACEHOLDER].update(0, end as u16) =~= seq![end as u16]);
            lemma_begin_stands(t, z, over as int, ROp::Jump, seq![end as u16]);
            assert forall|m: Run| m.ip == x.instructions.len() implies #[trigger] step(
                z.instructions,
                z.constants,
                m,
            ) == Some(at(m, t.instructions.len() as int)) by {
                lemma_step(z.instructions, z.constants, m, ROp::Jump, seq![end as u16]);
                let g = encoded_all(ROp::Jump, seq![end as u16]);
                assert(g[0] == end);
            }
            // what lies between
            assert forall|i: int| c.instructions.len() <= i < x.instructions.len() && 0
                <= i implies z.instructions[i] == #[trigger] x.instructions[i] by {
                assert(w.instructions[i] == x.instructions[i]);
                assert(y.instructions[i] == w.instructions[i]);
                assert(v.instructions[i] == y.instructions[i]);
                assert(t.instructions[i] == v.instructions[i]);
            }
            assert forall|i: int| y.instructions.len() <= i < v.instructions.len() && 0
                <= i implies z.instructions[i] == #[trigger] v.instructions[i] by {
                assert(t.instructions[i] == v.instructions[i]);
            }
            if alternative is None {
                lemma_emit_stands(y, ROp::LoadNull, seq![dst]);
                lemma_stands_in(
                    v.instructions,
                    z.instructions,
                    y.instructions.len() as int,
                    ROp::LoadNull,
                    seq![dst],
                );
                assert forall|m: Run| m.ip == y.instructions.len() implies #[trigger] step(
                    z.instructions,
                    z.constants,
                    m,
                ) == Some(holding(m, dst as int, Datum::Null, t.instructions.len() as int)) by {
                    lemma_step(z.instructions, z.constants, m, ROp::LoadNull, seq![dst]);
                    let g = encoded_all(ROp::LoadNull, seq![dst]);
                    assert(g[0] == dst);
                }
            }
            y
        },
        _ => s,
    }
}

/// Code that is built on has no more constants.
pub proof fn lemma_begins_small(c: RView, x: RView)
    requires
        builds_on(c, x),
        fits(x),
    ensures
        fits(c),
{
    reveal(builds_on);
}

/// The left operand of a logical operator, moved to where the result belongs.
pub open spec fn left_end(s: RView, left: Expression, dst: u16) -> RView {
    rgen_expr(s, left).copy_reg(dst, s.next_temp)
}

/// Whether the right operand of a logical operator counts, given the left one.
pub open spec fn right_counts(operator: Seq<char>, left: Datum) -> bool {
    if operator == "||"@ {
        !is_truthy(left)
    } else if operator == "&&"@ {
        is_truthy(left)
    } else {
        is_nullish(left)
    }
}

/// A logical operator goes on to its right operand, which is evaluated into the same
/// register, if the left one does not decide: if it is falsy for `||`, truthy for `&&` and
/// null or undefined for `??`. Otherwise control goes past it, with the left operand as the
/// result. The state that is returned is that in which the right operand is compiled.
pub proof fn law_logical_decides(
    s: RView,
    left: Expression,
    operator: Seq<char>,
    e: Expression,
    dst: u16,
    z: RView,
    m: Run,
) -> (r: (RView, Run))
    requires
        is_extendable(s),
        begins(rgen_logical(s, e, dst), z),
        fits(z),
        e matches Expression::Infix { left: l, operator: o, .. } && *l == left && o@ == operator,
        operator == "||"@ || operator == "&&"@ || operator == "??"@,
        m.ip == left_end(s, left, dst).instructions.len(),
        dst != left_end(s, left, dst).next_temp,
    ensures
        ({
            let (b, n) = r;
            let t = rgen_logical(s, e, dst);
            &&& leads(z.instructions, z.constants, m, n)
            &&& n.regs[dst as int] == m.regs[dst as int]
            &&& n.ip == if right_counts(operator, m.regs[dst as int]) {
                b.instructions.len() as int
            } else {
                t.instructions.len() as int
            }
            &&& e matches Expression::Infix { right, .. } && ({
                &&& rgen_expr_into(b, *right, dst).instructions.len() == t.instructions.len()
                &&& same_from(rgen_expr_into(b, *right, dst), z, b.instructions.len() as int)
                &&& begins(left_end(s, left, dst), z)
            })
        }),
{
    broadcast use {
        ext_copy_reg,
        ext_emit,
        ext_here,
        ext_patch,
        ext_take_temp,
        extension_is_extendable,
    };

    reveal(logical_rrule);
    reveal_strlit("||");
    reveal_strlit("&&");
    reveal_strlit("??");
    assert("||"@[0] == '|' && "&&"@[0] == '&' && "??"@[0] == '?');
    let t = rgen_logical(s, e, dst);
    assert(t == logical_rrule(s, e, dst));
    lemma_extends_self(s);
    lemma_fewer(t, z);
    extends_expr(s, left);
    let a = left_end(s, left, dst);
    lemma_extends_self_after(s, a);
    match e {
        Expression::Infix { right, .. } => {
            let nullish = a.next_temp;
            let c = if operator == "??"@ {
                a.take_temp().emit(ROp::IsNullish, seq![nullish, dst])
            } else {
                a
            };
            let (op, r) = if operator == "||"@ {
                (ROp::JumpIfTruthy, dst)
            } else if operator == "&&"@ {
                (ROp::JumpIfNot, dst)
            } else {
                (ROp::JumpIfNot, nullish)
            };
            let b = c.emit(op, seq![r, PLACEHOLDER]);
            let jump = c.here();
            lemma_extends_self_after(s, c);
            lemma_extends_self_after(s, b);
            extends_expr_into(b, *right, dst);
            let v = rgen_expr_into(b, *right, dst);
            assert(t == v.patch(jump, v.here()));
            assert(v.instructions.len() == t.instructions.len() && v.constants == t.constants) by {
                reveal(RView::patch);
            }
            let end = v.instructions.len();
            lemma_begins_small(b, v);
            lemma_begins(b, v);
            lemma_emit_stands(c, op, seq![r, PLACEHOLDER]);
            lemma_begin_stands(b, v, jump as int, op, seq![r, PLACEHOLDER]);
            lemma_patch_stands(v, jump, op, seq![r, PLACEHOLDER], v.here());
            assert(seq![r, PLACEHOLDER].update(1, end as u16) =~= seq![r, end as u16]);
            lemma_begin_stands(t, z, jump as int, op, seq![r, end as u16]);
            assert(begins(c, b));
            lemma_begins_on(c, b, v);
            lemma_patch_later(c, v, jump, v.here());
            lemma_begins_on(c, t, z);
            lemma_begins_small(a, c);
            lemma_begins(a, c);
            lemma_begins_on(a, c, z);
            let n = if operator == "??"@ {
                let before = a.take_temp();
                assert(before.instructions == a.instructions) by {
                    reveal(RView::take_temp);
                }
                lemma_run_emit(before, ROp::IsNullish, seq![nullish, dst], z, m);
                let g = encoded_all(ROp::IsNullish, seq![nullish, dst]);
                assert(g[0] == nullish && g[1] == dst);
                let n = holding(
                    m,
                    nullish as int,
                    Datum::Bool(is_nullish(m.regs[dst as int])),
                    c.instructions.len() as int,
                );
                lemma_leads_one(z.instructions, z.constants, m, n);
                n
            } else {
                lemma_leads_self(z.instructions, z.constants, m);
                m
            };
            lemma_step(z.instructions, z.constants, n, op, seq![r, end as u16]);
            let g = encoded_all(op, seq![r, end as u16]);
            assert(g[0] == r && g[1] == end);
            let last = at(
                n,
                if right_counts(operator, m.regs[dst as int]) {
                    b.instructions.len() as int
                } else {
                    end as int
                },
            );
            lemma_leads_one(z.instructions, z.constants, n, last);
            lemma_leads_on(z.instructions, z.constants, m, n, last);
            assert forall|i: int| b.instructions.len() <= i < v.instructions.len() && 0
                <= i implies z.instructions[i] == #[trigger] v.instructions[i] by {
                assert(t.instructions[i] == v.instructions[i]);
            }
            (b, last)
        },
        _ => (s, m),
    }
}

} // verus!
