//! What setting the targets of jumps in register code leaves as it is.
use vstd::prelude::*;

use crate::object::ObjectView;
use crate::rcode::ROp;
use crate::rcodegen::{target_offset, RView};
use crate::reffects::begins;
use crate::rextend::{builds_on, waits_in_loop};
use crate::rlayout::{
    is_whole, lemma_encoded_target, lemma_jump_size, lemma_patch, lemma_reach_between, reaches,
};
use crate::rmeaning::{lemma_patch_stands, lemma_stands_in, stands, width_of};
use crate::rsound::{
    are_places, is_narrow, is_place, is_sound, lemma_place_is_start, lemma_waiting_are_places,
};

verus! {

/// Whether an instruction is a jump with a target among its operands.
pub open spec fn is_sent(op: ROp, operands: Seq<u16>) -> bool {
    target_offset(op as u8) matches Some(offset) && offset / 2 < operands.len()
}

/// Setting the target of one jump leaves another instruction as it is.
pub proof fn lemma_patch_other(
    s: RView,
    pos: usize,
    jump: ROp,
    given: Seq<u16>,
    target: usize,
    p: int,
    op: ROp,
    operands: Seq<u16>,
)
    requires
        stands(s.instructions, pos as int, jump, given),
        is_sent(jump, given),
        target <= 0xffff,
        stands(s.instructions, p, op, operands),
        p + width_of(op) <= pos || pos + width_of(jump) <= p,
    ensures
        stands(s.patch(pos, target).instructions, p, op, operands),
{
    lemma_patch_stands(s, pos, jump, given, target);
    assert(0 <= p && p + width_of(op) <= s.instructions.len()) by {
        reveal(stands);
    }
    let t = s.patch(pos, target);
    assert forall|i: int| p <= i < p + width_of(op) implies #[trigger] s.instructions[i]
        == t.instructions[i] by {}
    lemma_stands_in(s.instructions, t.instructions, p, op, operands);
}

/// Setting the same jump in code and in what begins with it.
pub proof fn lemma_patch_begins(
    c: RView,
    w: RView,
    pos: usize,
    op: ROp,
    operands: Seq<u16>,
    target: usize,
)
    requires
        begins(c, w),
        stands(c.instructions, pos as int, op, operands),
        is_sent(op, operands),
        target <= 0xffff,
    ensures
        begins(c.patch(pos, target), w.patch(pos, target)),
{
    reveal(RView::patch);
    lemma_encoded_target(op, operands);
    assert(pos + width_of(op) <= c.instructions.len() && c.instructions[pos as int] == op as u8) by {
        reveal(stands);
    }
}

/// Setting a jump that comes later.
pub proof fn lemma_patch_later(c: RView, v: RView, pos: usize, target: usize)
    requires
        begins(c, v),
        c.instructions.len() <= pos,
    ensures
        begins(c, v.patch(pos, target)),
{
    reveal(RView::patch);
}

/// Whether code has the bytes of other code from a position on.
pub open spec fn same_from(x: RView, z: RView, low: int) -> bool {
    &&& x.instructions.len() <= z.instructions.len()
    &&& forall|i: int|
        low <= i < x.instructions.len() && 0 <= i ==> z.instructions[i]
            == #[trigger] x.instructions[i]
}

/// Whether each of some positions is where an instruction starts.
pub open spec fn are_starts(code: Seq<u8>, positions: Seq<usize>) -> bool {
    forall|k: int|
        0 <= k < positions.len() ==> reaches(code, 0, #[trigger] positions[k] as int)
            && positions[k] <= code.len()
}

/// Setting the target of one jump leaves the other instructions as they are.
pub proof fn lemma_patch_apart(s: RView, pos: usize, target: usize, q: int)
    requires
        is_whole(s.instructions),
        reaches(s.instructions, 0, pos as int),
        reaches(s.instructions, 0, q),
        0 <= q <= s.instructions.len(),
    ensures
        ({
            let t = s.patch(pos, target);
            &&& t.instructions.len() == s.instructions.len()
            &&& t == (RView { instructions: t.instructions, ..s })
            &&& is_whole(t.instructions)
            &&& forall|p: int| #[trigger]
                reaches(s.instructions, 0, p) <==> reaches(t.instructions, 0, p)
            &&& pos < q ==> forall|i: int|
                q <= i < s.instructions.len() ==> t.instructions[i] == #[trigger] s.instructions[i]
            &&& forall|i: int|
                0 <= i < pos && i < s.instructions.len() ==> t.instructions[i]
                    == #[trigger] s.instructions[i]
        }),
{
    reveal(RView::patch);
    let code = s.instructions;
    if pos < code.len() && target_offset(code[pos as int]) is Some {
        lemma_patch(code, pos as int, target as u16);
        lemma_jump_size(code, pos as int);
        if pos < q {
            lemma_reach_between(code, 0, pos as int, q);
        }
    }
}

/// Setting the targets of jumps leaves what comes before them all as it is, and what comes
/// after them all.
pub proof fn lemma_patch_all_apart(
    s: RView,
    positions: Seq<usize>,
    k: int,
    target: usize,
    low: int,
    high: int,
)
    requires
        is_whole(s.instructions),
        are_starts(s.instructions, positions),
        reaches(s.instructions, 0, high),
        0 <= high <= s.instructions.len(),
        forall|j: int| 0 <= j < positions.len() ==> low <= #[trigger] positions[j] < high,
    ensures
        ({
            let t = s.patch_all(positions, k, target);
            &&& t.instructions.len() == s.instructions.len()
            &&& t == (RView { instructions: t.instructions, ..s })
            &&& is_whole(t.instructions)
            &&& forall|p: int| #[trigger]
                reaches(s.instructions, 0, p) <==> reaches(t.instructions, 0, p)
            &&& forall|i: int|
                high <= i < s.instructions.len() ==> t.instructions[i]
                    == #[trigger] s.instructions[i]
            &&& forall|i: int|
                0 <= i < low && i < s.instructions.len() ==> t.instructions[i]
                    == #[trigger] s.instructions[i]
        }),
    decreases positions.len() - k,
{
    reveal(RView::patch_all);
    if 0 <= k < positions.len() {
        lemma_patch_apart(s, positions[k], target, high);
        let t = s.patch(positions[k], target);
        assert(are_starts(t.instructions, positions)) by {
            assert forall|j: int| 0 <= j < positions.len() implies reaches(
                t.instructions,
                0,
                #[trigger] positions[j] as int,
            ) && positions[j] <= t.instructions.len() by {
                assert(reaches(s.instructions, 0, positions[j] as int));
            }
        }
        lemma_patch_all_apart(t, positions, k + 1, target, low, high);
        let u = s.patch_all(positions, k, target);
        assert forall|i: int| high <= i < s.instructions.len() implies u.instructions[i]
            == #[trigger] s.instructions[i] by {
            assert(t.instructions[i] == s.instructions[i]);
        }
        assert forall|i: int| 0 <= i < low && i < s.instructions.len() implies u.instructions[i]
            == #[trigger] s.instructions[i] by {
            assert(t.instructions[i] == s.instructions[i]);
        }
    }
}

/// Leaving a loop changes nothing but jumps that waited in it.
pub proof fn lemma_close_loop_apart(s: RView, end: usize, low: int, high: usize)
    requires
        is_sound(s),
        is_narrow(s.constants),
        s.instructions.len() <= usize::MAX,
        s.loop_stack.len() > 0,
        is_place(s, high),
        forall|p: usize| #[trigger] waits_in_loop(s.loop_stack.last(), p) ==> low <= p < high,
    ensures
        ({
            let t = s.close_loop(end);
            &&& t.instructions.len() == s.instructions.len()
            &&& t == (RView {
                instructions: t.instructions,
                loop_stack: s.loop_stack.drop_last(),
                ..s
            })
            &&& forall|i: int|
                high <= i < s.instructions.len() ==> t.instructions[i]
                    == #[trigger] s.instructions[i]
            &&& forall|i: int|
                0 <= i < low && i < s.instructions.len() ==> t.instructions[i]
                    == #[trigger] s.instructions[i]
        }),
{
    reveal(RView::close_loop);
    let ctx = s.loop_stack.last();
    let n = s.loop_stack.len() - 1;
    let t = RView { loop_stack: s.loop_stack.drop_last(), ..s };
    lemma_waiting_are_places(s, n);
    lemma_place_is_start(s, high);
    lemma_starts(s, ctx.break_positions);
    lemma_starts(s, ctx.continue_positions);
    assert forall|j: int| 0 <= j < ctx.break_positions.len() implies low
        <= #[trigger] ctx.break_positions[j] < high by {
        assert(waits_in_loop(ctx, ctx.break_positions[j]));
    }
    assert forall|j: int| 0 <= j < ctx.continue_positions.len() implies low
        <= #[trigger] ctx.continue_positions[j] < high by {
        assert(waits_in_loop(ctx, ctx.continue_positions[j]));
    }
    lemma_patch_all_apart(t, ctx.break_positions, 0, end, low, high as int);
    let u = t.patch_all(ctx.break_positions, 0, end);
    assert(are_starts(u.instructions, ctx.continue_positions)) by {
        assert forall|j: int| 0 <= j < ctx.continue_positions.len() implies reaches(
            u.instructions,
            0,
            #[trigger] ctx.continue_positions[j] as int,
        ) && ctx.continue_positions[j] <= u.instructions.len() by {
            assert(reaches(t.instructions, 0, ctx.continue_positions[j] as int));
        }
    }
    lemma_patch_all_apart(u, ctx.continue_positions, 0, ctx.continue_target, low, high as int);
    let r = s.close_loop(end);
    assert forall|i: int| high <= i < s.instructions.len() implies r.instructions[i]
        == #[trigger] s.instructions[i] by {
        assert(u.instructions[i] == t.instructions[i]);
    }
    assert forall|i: int| 0 <= i < low && i < s.instructions.len() implies r.instructions[i]
        == #[trigger] s.instructions[i] by {
        assert(u.instructions[i] == t.instructions[i]);
    }
}

/// Setting the targets of jumps changes code alone.
pub proof fn lemma_patch_all_code(s: RView, positions: Seq<usize>, k: int, target: usize)
    ensures
        ({
            let t = s.patch_all(positions, k, target);
            &&& t.instructions.len() == s.instructions.len()
            &&& t == (RView { instructions: t.instructions, ..s })
        }),
    decreases positions.len() - k,
{
    reveal(RView::patch_all);
    reveal(RView::patch);
    if 0 <= k < positions.len() {
        lemma_patch_all_code(s.patch(positions[k], target), positions, k + 1, target);
    }
}

/// Leaving a loop changes code and loops alone.
pub proof fn lemma_close_loop_code(s: RView, end: usize)
    requires
        s.loop_stack.len() > 0,
    ensures
        ({
            let t = s.close_loop(end);
            &&& t.instructions.len() == s.instructions.len()
            &&& t == (RView {
                instructions: t.instructions,
                loop_stack: s.loop_stack.drop_last(),
                ..s
            })
        }),
{
    reveal(RView::close_loop);
    let ctx = s.loop_stack.last();
    let t = RView { loop_stack: s.loop_stack.drop_last(), ..s };
    lemma_patch_all_code(t, ctx.break_positions, 0, end);
    let u = t.patch_all(ctx.break_positions, 0, end);
    lemma_patch_all_code(u, ctx.continue_positions, 0, ctx.continue_target);
}

/// Places are where instructions start.
pub proof fn lemma_starts(s: RView, positions: Seq<usize>)
    requires
        is_sound(s),
        is_narrow(s.constants),
        s.instructions.len() <= usize::MAX,
        are_places(s, positions),
    ensures
        are_starts(s.instructions, positions),
{
    assert forall|k: int| 0 <= k < positions.len() implies reaches(
        s.instructions,
        0,
        #[trigger] positions[k] as int,
    ) && positions[k] <= s.instructions.len() by {
        lemma_place_is_start(s, positions[k]);
    }
}

/// Constants among which no function captures too much are among those that were added to.
pub proof fn lemma_narrower(s: RView, t: RView)
    requires
        builds_on(s, t),
        is_narrow(t.constants),
    ensures
        is_narrow(s.constants),
{
    reveal(builds_on);
    assert forall|i: int| 0 <= i < s.constants.len() implies (
    #[trigger] s.constants[i] matches ObjectView::Function(f) ==> f.closure_captures.len()
        <= 255) by {
        assert(t.constants[i] == s.constants[i]);
    }
}

} // verus!
