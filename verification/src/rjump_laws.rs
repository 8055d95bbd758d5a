//! Where jumps go that wait for their target when register code is generated.
use vstd::prelude::*;

use crate::codegen::{loop_index, LoopView, PLACEHOLDER};
use crate::rcode::ROp;
use crate::rcodegen::RView;
use crate::rlayout::{is_whole, lemma_reach_between, lemma_size, reaches};
use crate::rmeaning::{lemma_emit_stands, lemma_patch_stands, lemma_stands_in, stands, width_of};
use crate::rpatches::{are_starts, lemma_patch_apart, lemma_starts};
use crate::rsound::{
    is_narrow, is_sound, lemma_place_is_start, lemma_throws_are_places, lemma_waiting_are_places,
};

verus! {

/// Setting the targets of some jumps sets that of a jump that is among them, and leaves that
/// of another one.
proof fn lemma_all_sent(
    s: RView,
    positions: Seq<usize>,
    k: int,
    target: usize,
    p: usize,
    w: u16,
)
    requires
        is_whole(s.instructions),
        are_starts(s.instructions, positions),
        reaches(s.instructions, 0, p as int),
        stands(s.instructions, p as int, ROp::Jump, seq![w]),
        target <= 0xffff,
        0 <= k,
    ensures
        ({
            let t = s.patch_all(positions, k, target);
            &&& is_whole(t.instructions)
            &&& t.instructions.len() == s.instructions.len()
            &&& forall|q: int| #[trigger]
                reaches(s.instructions, 0, q) <==> reaches(t.instructions, 0, q)
            &&& stands(
                t.instructions,
                p as int,
                ROp::Jump,
                seq![
                    if k <= positions.len() && positions.skip(k).contains(p) {
                        target as u16
                    } else {
                        w
                    },
                ],
            )
        }),
    decreases positions.len() - k,
{
    reveal(RView::patch_all);
    if k < positions.len() {
        let q = positions[k];
        assert(0 <= p && p + width_of(ROp::Jump) <= s.instructions.len()
            && s.instructions[p as int] == ROp::Jump as u8) by {
            reveal(stands);
        }
        lemma_size(s.instructions, p as int, ROp::Jump);
        lemma_patch_apart(s, q, target, p as int);
        let t = s.patch(q, target);
        let v = if q == p {
            target as u16
        } else {
            w
        };
        if q == p {
            lemma_patch_stands(s, p, ROp::Jump, seq![w], target);
            assert(seq![w].update(0, target as u16) =~= seq![target as u16]);
        } else {
            if p < q {
                lemma_reach_between(s.instructions, 0, p as int, q as int);
            }
            assert forall|i: int| p <= i < p + width_of(ROp::Jump) implies #[trigger] s.instructions[i]
                == t.instructions[i] by {}
            lemma_stands_in(s.instructions, t.instructions, p as int, ROp::Jump, seq![w]);
        }
        assert(are_starts(t.instructions, positions)) by {
            assert forall|j: int| 0 <= j < positions.len() implies reaches(
                t.instructions,
                0,
                #[trigger] positions[j] as int,
            ) && positions[j] <= t.instructions.len() by {
                assert(reaches(s.instructions, 0, positions[j] as int));
            }
        }
        assert(reaches(t.instructions, 0, p as int)) by {
            assert(reaches(s.instructions, 0, p as int));
        }
        lemma_all_sent(t, positions, k + 1, target, p, v);
        let rest = positions.skip(k + 1);
        assert(positions.skip(k) =~= seq![q] + rest);
        if rest.contains(p) {
            let j = choose|j: int| 0 <= j < rest.len() && rest[j] == p;
            assert(positions.skip(k)[j + 1] == p);
        } else if q == p {
            assert(positions.skip(k)[0] == p);
        } else {
            assert(!positions.skip(k).contains(p)) by {
                if positions.skip(k).contains(p) {
                    let j = choose|j: int|
                        0 <= j < positions.skip(k).len() && positions.skip(k)[j] == p;
                    assert(rest[j - 1] == p);
                }
            }
        }
        let u = s.patch_all(positions, k, target);
        assert forall|x: int| #[trigger] reaches(s.instructions, 0, x) <==> reaches(
            u.instructions,
            0,
            x,
        ) by {
            assert(reaches(s.instructions, 0, x) <==> reaches(t.instructions, 0, x));
        }
    } else if k == positions.len() {
        assert(positions.skip(k).len() == 0);
    }
}

/// When a loop is left, each `break` in it goes to its end, and each `continue` in it goes
/// to where the loop goes on.
pub proof fn law_loop_jumps_are_sent(s: RView, end: usize, p: usize, w: u16)
    requires
        is_sound(s),
        is_narrow(s.constants),
        s.instructions.len() <= 0xffff,
        end <= 0xffff,
        s.loop_stack.len() > 0,
        stands(s.instructions, p as int, ROp::Jump, seq![w]),
        s.loop_stack.last().break_positions.contains(p)
            || s.loop_stack.last().continue_positions.contains(p),
    ensures
        ({
            let t = s.close_loop(end);
            let ctx = s.loop_stack.last();
            &&& !ctx.continue_positions.contains(p) ==> stands(
                t.instructions,
                p as int,
                ROp::Jump,
                seq![end as u16],
            )
            &&& !ctx.break_positions.contains(p) ==> stands(
                t.instructions,
                p as int,
                ROp::Jump,
                seq![ctx.continue_target as u16],
            ) && ctx.continue_target <= s.instructions.len()
        }),
{
    reveal(RView::close_loop);
    let ctx = s.loop_stack.last();
    let n = s.loop_stack.len() - 1;
    let t = RView { loop_stack: s.loop_stack.drop_last(), ..s };
    lemma_waiting_are_places(s, n);
    lemma_starts(s, ctx.break_positions);
    lemma_starts(s, ctx.continue_positions);
    lemma_place_is_start(s, ctx.continue_target);
    assert(reaches(s.instructions, 0, p as int)) by {
        if ctx.break_positions.contains(p) {
            let j = choose|j: int| 0 <= j < ctx.break_positions.len() && ctx.break_positions[j] == p;
            assert(reaches(s.instructions, 0, ctx.break_positions[j] as int));
        } else {
            let j = choose|j: int|
                0 <= j < ctx.continue_positions.len() && ctx.continue_positions[j] == p;
            assert(reaches(s.instructions, 0, ctx.continue_positions[j] as int));
        }
    }
    assert(ctx.break_positions.skip(0) =~= ctx.break_positions);
    assert(ctx.continue_positions.skip(0) =~= ctx.continue_positions);
    lemma_all_sent(t, ctx.break_positions, 0, end, p, w);
    let u = t.patch_all(ctx.break_positions, 0, end);
    let v = if ctx.break_positions.contains(p) {
        end as u16
    } else {
        w
    };
    assert(are_starts(u.instructions, ctx.continue_positions)) by {
        assert forall|j: int| 0 <= j < ctx.continue_positions.len() implies reaches(
            u.instructions,
            0,
            #[trigger] ctx.continue_positions[j] as int,
        ) && ctx.continue_positions[j] <= u.instructions.len() by {
            assert(reaches(t.instructions, 0, ctx.continue_positions[j] as int));
        }
    }
    assert(reaches(u.instructions, 0, p as int)) by {
        assert(reaches(t.instructions, 0, p as int));
    }
    lemma_all_sent(u, ctx.continue_positions, 0, ctx.continue_target, p, v);
}

/// When a `try` block is left, each throw in it goes to the handler, which follows.
pub proof fn law_throws_reach_handler(s: RView, p: usize, w: u16)
    requires
        is_sound(s),
        is_narrow(s.constants),
        s.instructions.len() <= 0xffff,
        s.try_stack.len() > 0,
        stands(s.instructions, p as int, ROp::Jump, seq![w]),
        s.try_stack.last().throw_jumps.contains(p),
    ensures
        stands(
            s.close_try().0.instructions,
            p as int,
            ROp::Jump,
            seq![s.instructions.len() as u16],
        ),
        s.close_try().0.instructions.len() == s.instructions.len(),
{
    reveal(RView::close_try);
    reveal(RView::here);
    let ctx = s.try_stack.last();
    let n = s.try_stack.len() - 1;
    let t = RView { try_stack: s.try_stack.drop_last(), ..s };
    lemma_throws_are_places(s, n);
    lemma_starts(s, ctx.throw_jumps);
    assert(ctx.throw_jumps.skip(0) =~= ctx.throw_jumps);
    let j = choose|j: int| 0 <= j < ctx.throw_jumps.len() && ctx.throw_jumps[j] == p;
    assert(reaches(s.instructions, 0, ctx.throw_jumps[j] as int));
    lemma_place_is_start(s, ctx.throw_jumps[j]);
    lemma_all_sent(t, ctx.throw_jumps, 0, s.here(), p, w);
}

/// Whether a loop is the one that a label means: the innermost one that has it, or the
/// innermost one of all where there is no label.
pub open spec fn is_meant(stack: Seq<LoopView>, label: Option<Seq<char>>, n: int) -> bool {
    &&& 0 <= n < stack.len()
    &&& label is None ==> n == stack.len() - 1
    &&& label is Some ==> stack[n].label == label && forall|k: int|
        n < k < stack.len() ==> (#[trigger] stack[k]).label != label
}

proof fn lemma_loop_found(stack: Seq<LoopView>, label: Option<Seq<char>>, n: int, meant: int)
    requires
        is_meant(stack, label, meant),
        meant < n <= stack.len(),
    ensures
        loop_index(stack, label, n) == (if label is None {
            Some(n - 1)
        } else {
            Some(meant)
        }),
    decreases n,
{
    if label is Some && n - 1 != meant {
        assert(stack[n - 1].label != label);
        lemma_loop_found(stack, label, n - 1, meant);
    }
}

/// A `break` or `continue` is a jump that waits in the loop that it means, and in no other
/// way.
pub proof fn law_loop_jump_waits(s: RView, label: Option<Seq<char>>, is_break: bool, n: int)
    requires
        is_meant(s.loop_stack, label, n),
        s.instructions.len() <= usize::MAX,
    ensures
        ({
            let t = s.jump_from_loop(label, is_break);
            let p = s.instructions.len() as usize;
            &&& t.err == s.err
            &&& stands(t.instructions, p as int, ROp::Jump, seq![PLACEHOLDER])
            &&& t.loop_stack.len() == s.loop_stack.len()
            &&& forall|k: int|
                0 <= k < s.loop_stack.len() && k != n ==> #[trigger] t.loop_stack[k]
                    == s.loop_stack[k]
            &&& t.loop_stack[n].continue_target == s.loop_stack[n].continue_target
            &&& t.loop_stack[n].break_positions == if is_break {
                s.loop_stack[n].break_positions.push(p)
            } else {
                s.loop_stack[n].break_positions
            }
            &&& t.loop_stack[n].continue_positions == if is_break {
                s.loop_stack[n].continue_positions
            } else {
                s.loop_stack[n].continue_positions.push(p)
            }
        }),
{
    reveal(RView::jump_from_loop);
    reveal(RView::here);
    lemma_emit_stands(s, ROp::Jump, seq![PLACEHOLDER]);
    lemma_loop_found(s.loop_stack, label, s.loop_stack.len() as int, n);
}

} // verus!
