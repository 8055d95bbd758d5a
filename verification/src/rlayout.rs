//! How register code divides into instructions.
use vstd::prelude::*;

use crate::code::{operand_at, operand_bytes_of, operand_field, widths_total};
use crate::codegen::{patched, PLACEHOLDER};
use crate::rcode::{
    closure_tail, law_rencode_length, law_rop_bytes_distinct, rencode, rwidths_of, words, ROp,
};
use crate::rcodegen::target_offset;

verus! {

/// Whether `byte` is the code of `op`.
pub open spec fn has_byte(op: ROp, byte: u8) -> bool {
    op as u8 == byte
}

/// The size of the instruction at `p`, and zero where there is none.
pub open spec fn size_at(code: Seq<u8>, p: int) -> int {
    if p < 0 || p >= code.len() {
        0
    } else if has_byte(ROp::MakeClosure, code[p]) {
        if p + 5 < code.len() {
            6 + 2 * code[p + 5]
        } else {
            0
        }
    } else if exists|op: ROp| has_byte(op, code[p]) {
        let op = choose|op: ROp| has_byte(op, code[p]);
        (1 + widths_total(rwidths_of(op), rwidths_of(op).len() as int)) as int
    } else {
        0
    }
}

/// Whether the instructions from `i` on lead to `p`.
pub open spec fn reaches(code: Seq<u8>, i: int, p: int) -> bool
    decreases p - i,
{
    i == p || (0 <= i < i + size_at(code, i) <= p && reaches(code, i + size_at(code, i), p))
}

/// Whether code consists of whole instructions.
pub open spec fn is_whole(code: Seq<u8>) -> bool {
    reaches(code, 0, code.len() as int)
}

/// The big-endian word at `p`.
pub open spec fn word_at(code: Seq<u8>, p: int) -> int {
    code[p] * 256 + code[p + 1]
}

/// Whether a jump at `p`, if one stands there, goes to the start of an instruction
/// or to the end of the code, or has no target yet.
pub open spec fn jump_lands(code: Seq<u8>, p: int) -> bool {
    target_offset(code[p]) matches Some(offset) ==> word_at(code, p + offset) == PLACEHOLDER
        || reaches(code, 0, word_at(code, p + offset))
}

/// Whether all jumps go to instructions.
pub open spec fn jumps_land(code: Seq<u8>) -> bool {
    forall|p: int| 0 <= p < code.len() && #[trigger] reaches(code, 0, p) ==> jump_lands(code, p)
}

pub(crate) proof fn lemma_size(code: Seq<u8>, p: int, op: ROp)
    requires
        0 <= p < code.len(),
        has_byte(op, code[p]),
        op != ROp::MakeClosure,
    ensures
        size_at(code, p) == 1 + widths_total(rwidths_of(op), rwidths_of(op).len() as int),
{
    let found = choose|o: ROp| has_byte(o, code[p]);
    law_rop_bytes_distinct(found, op);
    law_rop_bytes_distinct(ROp::MakeClosure, op);
}

/// What leads to `p` depends on the code before `p` alone.
proof fn lemma_same_before(a: Seq<u8>, b: Seq<u8>, i: int, p: int)
    requires
        0 <= i,
        p <= a.len(),
        p <= b.len(),
        forall|k: int| 0 <= k < p ==> #[trigger] a[k] == b[k],
    ensures
        reaches(a, i, p) ==> reaches(b, i, p),
    decreases p - i,
{
    if reaches(a, i, p) && i != p {
        let n = size_at(a, i);
        lemma_reach_order(a, i + n, p);
        assert(i + n <= p);
        if has_byte(ROp::MakeClosure, a[i]) {
            assert(a[i + 5] == b[i + 5]);
        }
        assert(size_at(b, i) == n);
        lemma_same_before(a, b, i + n, p);
    }
}

proof fn lemma_reach_order(code: Seq<u8>, i: int, p: int)
    requires
        reaches(code, i, p),
    ensures
        i <= p,
{
}

/// One thing leads on where another ends.
proof fn lemma_reach_on(code: Seq<u8>, i: int, p: int, q: int)
    requires
        reaches(code, i, p),
        reaches(code, p, q),
    ensures
        reaches(code, i, q),
    decreases p - i,
{
    if i != p {
        lemma_reach_on(code, i + size_at(code, i), p, q);
        lemma_reach_order(code, i + size_at(code, i), q);
    }
}

/// Of two things that can be reached, the later one can be reached from the
/// earlier one.
pub proof fn lemma_reach_between(code: Seq<u8>, i: int, p: int, q: int)
    requires
        reaches(code, i, p),
        reaches(code, i, q),
        p <= q,
    ensures
        reaches(code, p, q),
    decreases p - i,
{
    if i != p {
        lemma_reach_between(code, i + size_at(code, i), p, q);
    }
}

/// Whether `tail` is a single instruction.
pub open spec fn is_one(tail: Seq<u8>) -> bool {
    tail.len() > 0 && size_at(tail, 0) == tail.len()
}

pub proof fn lemma_encoded_is_one(op: ROp, operands: Seq<u16>)
    requires
        op == ROp::MakeClosure ==> 3 <= operands.len() <= 258 && operands[2] == operands.len()
            - 3,
    ensures
        is_one(rencode(op, operands)),
        rencode(op, operands)[0] == op as u8,
{
    let code = rencode(op, operands);
    law_rencode_length(op, operands);
    assert(has_byte(op, code[0]));
    if op == ROp::MakeClosure {
        let w = rwidths_of(op);
        reveal_with_fuel(widths_total, 4);
        reveal_with_fuel(operand_bytes_of, 4);
        let fixed = operand_bytes_of(w, operands, 3);
        assert(fixed.len() == 5);
        assert(fixed[4] == operand_field(1, operands[2])[0]);
        assert(code[5] == fixed[4]);
        assert(closure_tail(op, operands).len() == operands.len() - 3);
    } else {
        lemma_size(code, 0, op);
    }
}

/// Where the target of a jump stands in its encoding.
pub proof fn lemma_encoded_target(op: ROp, operands: Seq<u16>)
    ensures
        target_offset(op as u8) matches Some(offset) ==> {
            &&& 0 < offset
            &&& offset + 1 < rencode(op, operands).len()
            &&& offset % 2 == 1
            &&& offset / 2 < operands.len() ==> word_at(rencode(op, operands), offset)
                == operands[offset / 2]
            &&& offset + 2 == 1 + widths_total(rwidths_of(op), rwidths_of(op).len() as int)
            &&& op != ROp::MakeClosure
        },
{
    let code = rencode(op, operands);
    law_rencode_length(op, operands);
    law_rop_bytes_distinct(op, ROp::Jump);
    law_rop_bytes_distinct(op, ROp::JumpIfNot);
    law_rop_bytes_distinct(op, ROp::JumpIfTruthy);
    law_rop_bytes_distinct(op, ROp::TestLtConstJump);
    law_rop_bytes_distinct(op, ROp::TestLeConstJump);
    law_rop_bytes_distinct(op, ROp::IncrementRegAndJump);
    law_rop_bytes_distinct(op, ROp::ModRegConstStrictEqConstJump);
    if target_offset(op as u8) is Some {
        reveal_with_fuel(widths_total, 5);
        reveal_with_fuel(operand_bytes_of, 5);
        let w = rwidths_of(op);
        let fields = operand_bytes_of(w, operands, w.len() as int);
        assert(words(closure_tail(op, operands)).len() == 0);
        assert(code =~= seq![op as u8] + fields);
    }
}

/// A jump ends with its target.
pub(crate) proof fn lemma_jump_size(code: Seq<u8>, p: int)
    requires
        0 <= p < code.len(),
    ensures
        target_offset(code[p]) matches Some(offset) ==> 0 < offset && size_at(code, p) == offset
            + 2,
{
    if target_offset(code[p]) is Some {
        let byte = code[p];
        let op = if byte == ROp::Jump as u8 {
            ROp::Jump
        } else if byte == ROp::JumpIfNot as u8 {
            ROp::JumpIfNot
        } else if byte == ROp::JumpIfTruthy as u8 {
            ROp::JumpIfTruthy
        } else if byte == ROp::TestLtConstJump as u8 {
            ROp::TestLtConstJump
        } else if byte == ROp::TestLeConstJump as u8 {
            ROp::TestLeConstJump
        } else if byte == ROp::IncrementRegAndJump as u8 {
            ROp::IncrementRegAndJump
        } else {
            ROp::ModRegConstStrictEqConstJump
        };
        lemma_encoded_target(op, Seq::empty());
        lemma_size(code, p, op);
    }
}

/// Nothing beyond the end of whole code can be reached.
pub proof fn lemma_reach_within(code: Seq<u8>, p: int)
    requires
        is_whole(code),
        reaches(code, 0, p),
    ensures
        0 <= p <= code.len(),
{
    lemma_reach_order(code, 0, p);
    if p > code.len() {
        lemma_reach_between(code, 0, code.len() as int, p);
    }
}

/// Code to which an instruction is added stays whole, and has one start more.
pub proof fn lemma_append(code: Seq<u8>, tail: Seq<u8>)
    requires
        is_whole(code),
        is_one(tail),
    ensures
        is_whole(code + tail),
        forall|p: int|
            0 <= p <= code.len() ==> (#[trigger] reaches(code, 0, p) <==> reaches(
                code + tail,
                0,
                p,
            )),
        forall|p: int|
            code.len() < p < code.len() + tail.len() ==> !#[trigger] reaches(code + tail, 0, p),
{
    let all = code + tail;
    let n = code.len() as int;
    assert forall|p: int| 0 <= p <= n implies (#[trigger] reaches(code, 0, p) <==> reaches(
        all,
        0,
        p,
    )) by {
        lemma_same_before(code, all, 0, p);
        lemma_same_before(all, code, 0, p);
    }
    assert(all[n] == tail[0]);
    if has_byte(ROp::MakeClosure, tail[0]) {
        assert(all[n + 5] == tail[5]);
    }
    assert(size_at(all, n) == tail.len());
    assert(reaches(all, n + tail.len(), n + tail.len()));
    assert(reaches(all, n, n + tail.len()));
    lemma_reach_on(all, 0, n, n + tail.len());
    assert forall|p: int| n < p < n + tail.len() implies !#[trigger] reaches(all, 0, p) by {
        if reaches(all, 0, p) {
            lemma_reach_between(all, 0, n, p);
        }
    }
}

/// If the jumps of code land, and so does the one that is added to it, if it is one,
/// they still do.
pub proof fn lemma_append_jumps(code: Seq<u8>, tail: Seq<u8>)
    requires
        is_whole(code),
        jumps_land(code),
        is_one(tail),
        target_offset(tail[0]) matches Some(offset) ==> word_at(tail, offset) == PLACEHOLDER
            || reaches(code, 0, word_at(tail, offset)),
    ensures
        jumps_land(code + tail),
{
    let all = code + tail;
    let n = code.len() as int;
    lemma_append(code, tail);
    assert forall|p: int| 0 <= p < all.len() && #[trigger] reaches(all, 0, p) implies jump_lands(
        all,
        p,
    ) by {
        if p < n {
            assert(reaches(code, 0, p));
            assert(jump_lands(code, p));
            lemma_jump_size(code, p);
            if let Some(offset) = target_offset(code[p]) {
                lemma_reach_between(code, 0, p, n);
                assert(p + offset + 2 <= n);
                assert(word_at(all, p + offset) == word_at(code, p + offset));
                if word_at(code, p + offset) != PLACEHOLDER {
                    lemma_reach_within(code, word_at(code, p + offset));
                }
            }
        } else {
            assert(p == n);
            lemma_jump_size(tail, 0);
            if let Some(offset) = target_offset(tail[0]) {
                assert(word_at(all, n + offset) == word_at(tail, offset));
                if word_at(tail, offset) != PLACEHOLDER {
                    lemma_reach_within(code, word_at(tail, offset));
                }
            }
        }
    }
}

/// Setting the target of the jump at `pos` leaves the instructions where they are.
proof fn lemma_patch_reach(code: Seq<u8>, pos: int, target: u16, i: int, p: int)
    requires
        0 <= pos < code.len(),
        target_offset(code[pos]) is Some,
        pos + (target_offset(code[pos])->0) + 2 <= code.len(),
        0 <= i,
        reaches(code, i, pos) || i >= pos + (target_offset(code[pos])->0) + 2,
    ensures
        reaches(code, i, p) <==> reaches(
            patched(code, pos + (target_offset(code[pos])->0), target),
            i,
            p,
        ),
    decreases p - i,
{
    let offset = target_offset(code[pos])->0;
    let after = patched(code, pos + offset, target);
    lemma_jump_size(code, pos);
    lemma_jump_size(after, pos);
    if i < code.len() {
        if i < pos {
            let n = size_at(code, i);
            lemma_reach_order(code, i + n, pos);
            assert(code[i] == after[i]);
            if has_byte(ROp::MakeClosure, code[i]) {
                assert(code[i + 5] == after[i + 5]);
            }
            assert(size_at(after, i) == n);
        } else if i > pos {
            assert(code[i] == after[i]);
            if has_byte(ROp::MakeClosure, code[i]) && i + 5 < code.len() {
                assert(code[i + 5] == after[i + 5]);
            }
            assert(size_at(after, i) == size_at(code, i));
        } else {
            assert(after[pos] == code[pos]);
            assert(size_at(after, pos) == size_at(code, pos));
        }
    }
    let n = size_at(code, i);
    assert(size_at(after, i) == n);
    if n > 0 && i + n <= p {
        lemma_patch_reach(code, pos, target, i + n, p);
    }
}

/// Setting the target of a jump keeps code whole, with the same starts.
pub proof fn lemma_patch(code: Seq<u8>, pos: int, target: u16)
    requires
        is_whole(code),
        0 <= pos < code.len(),
        reaches(code, 0, pos),
        target_offset(code[pos]) is Some,
    ensures
        pos + (target_offset(code[pos])->0) + 2 <= code.len(),
        is_whole(patched(code, pos + (target_offset(code[pos])->0), target)),
        forall|p: int| #[trigger]
            reaches(code, 0, p) <==> reaches(
                patched(code, pos + (target_offset(code[pos])->0), target),
                0,
                p,
            ),
        jumps_land(code) && (target == PLACEHOLDER || reaches(code, 0, target as int))
            ==> jumps_land(patched(code, pos + (target_offset(code[pos])->0), target)),
{
    let offset = target_offset(code[pos])->0;
    let after = patched(code, pos + offset, target);
    lemma_jump_size(code, pos);
    lemma_reach_between(code, 0, pos, code.len() as int);
    assert forall|p: int| #[trigger] reaches(code, 0, p) <==> reaches(after, 0, p) by {
        lemma_patch_reach(code, pos, target, 0, p);
    }
    if jumps_land(code) && (target == PLACEHOLDER || reaches(code, 0, target as int)) {
        assert forall|p: int|
            0 <= p < after.len() && #[trigger] reaches(after, 0, p) implies jump_lands(
            after,
            p,
        ) by {
            assert(reaches(code, 0, p));
            assert(jump_lands(code, p));
            lemma_jump_size(code, p);
            if p < pos {
                lemma_reach_between(code, 0, p, pos);
                assert(after[p] == code[p]);
            } else if p > pos {
                lemma_reach_between(code, 0, pos, p);
                assert(after[p] == code[p]);
            } else {
                assert(after[pos] == code[pos]);
                assert(word_at(after, pos + offset) == target);
            }
            if p != pos {
                if let Some(o) = target_offset(code[p]) {
                    lemma_reach_between(code, 0, p, code.len() as int);
                    assert(word_at(after, p + o) == word_at(code, p + o));
                }
            }
        }
    }
}

/// Whether the index of a constant stands `offset` bytes into the instructions with a
/// code.
pub open spec fn is_constant_field(byte: u8, offset: int) -> bool {
    ||| offset == 3 && {
        ||| byte == ROp::LoadConst as u8
        ||| byte == ROp::SetProp as u8
        ||| byte == ROp::SetGlobalProp as u8
        ||| byte == ROp::TestLtConstJump as u8
        ||| byte == ROp::TestLeConstJump as u8
        ||| byte == ROp::IncrementRegAndJump as u8
        ||| byte == ROp::ModRegConstStrictEqConstJump as u8
        ||| byte == ROp::AddConstToRegProp as u8
        ||| byte == ROp::AddRegPropsToRegProp as u8
        ||| byte == ROp::MakeClosure as u8
    }
    ||| offset == 5 && {
        ||| byte == ROp::GetProp as u8
        ||| byte == ROp::GetGlobalProp as u8
        ||| byte == ROp::AddRegConst as u8
        ||| byte == ROp::ModRegConstStrictEqConstJump as u8
        ||| byte == ROp::AddConstToRegProp as u8
        ||| byte == ROp::DefineAccessor as u8
    }
    ||| offset == 6 && byte == ROp::CallMethod as u8
    ||| offset == 7 && byte == ROp::AddRegPropsToRegProp as u8
    ||| offset == 11 && byte == ROp::AddRegPropsToRegProp as u8
}

/// Whether each index of a constant in code is less than `n`.
pub open spec fn constants_within(code: Seq<u8>, n: int) -> bool {
    forall|p: int, offset: int|
        0 <= p < code.len() && #[trigger] reaches(code, 0, p) && #[trigger] is_constant_field(
            code[p],
            offset,
        ) ==> word_at(code, p + offset) < n
}

/// The operand that an index of a constant in an instruction encodes.
pub open spec fn constant_operand(offset: int) -> int {
    if offset == 3 {
        1
    } else if offset == 5 {
        2
    } else if offset == 11 {
        5
    } else {
        3
    }
}

/// Whether an operand of an instruction is the index of a constant.
pub open spec fn has_constant(op: ROp, k: int) -> bool {
    match op {
        ROp::LoadConst
        | ROp::SetProp
        | ROp::SetGlobalProp
        | ROp::TestLtConstJump
        | ROp::TestLeConstJump
        | ROp::IncrementRegAndJump
        | ROp::MakeClosure => k == 1,
        ROp::GetProp | ROp::GetGlobalProp | ROp::AddRegConst | ROp::DefineAccessor => k == 2,
        ROp::ModRegConstStrictEqConstJump | ROp::AddConstToRegProp => k == 1 || k == 2,
        ROp::AddRegPropsToRegProp => k == 1 || k == 3 || k == 5,
        ROp::CallMethod => k == 3,
        _ => false,
    }
}

/// The opcode with a byte that indexes a constant.
spec fn constant_op(byte: u8) -> ROp {
    if byte == ROp::LoadConst as u8 {
        ROp::LoadConst
    } else if byte == ROp::SetProp as u8 {
        ROp::SetProp
    } else if byte == ROp::SetGlobalProp as u8 {
        ROp::SetGlobalProp
    } else if byte == ROp::TestLtConstJump as u8 {
        ROp::TestLtConstJump
    } else if byte == ROp::TestLeConstJump as u8 {
        ROp::TestLeConstJump
    } else if byte == ROp::IncrementRegAndJump as u8 {
        ROp::IncrementRegAndJump
    } else if byte == ROp::ModRegConstStrictEqConstJump as u8 {
        ROp::ModRegConstStrictEqConstJump
    } else if byte == ROp::AddConstToRegProp as u8 {
        ROp::AddConstToRegProp
    } else if byte == ROp::AddRegPropsToRegProp as u8 {
        ROp::AddRegPropsToRegProp
    } else if byte == ROp::MakeClosure as u8 {
        ROp::MakeClosure
    } else if byte == ROp::GetProp as u8 {
        ROp::GetProp
    } else if byte == ROp::GetGlobalProp as u8 {
        ROp::GetGlobalProp
    } else if byte == ROp::AddRegConst as u8 {
        ROp::AddRegConst
    } else if byte == ROp::DefineAccessor as u8 {
        ROp::DefineAccessor
    } else {
        ROp::CallMethod
    }
}

/// Where the index of a constant stands in the encoding of an instruction.
pub proof fn lemma_encoded_constant(op: ROp, operands: Seq<u16>, offset: int)
    requires
        is_constant_field(op as u8, offset),
    ensures
        offset + 1 < rencode(op, operands).len(),
        word_at(rencode(op, operands), offset) == operand_at(operands, constant_operand(offset)),
        offset + 2 <= 1 + widths_total(rwidths_of(op), rwidths_of(op).len() as int),
        has_constant(op, constant_operand(offset)),
{
    law_rencode_length(op, operands);
    lemma_has_constant(op, offset);
    let w = rwidths_of(op);
    let k = constant_operand(offset);
    lemma_constant_width(op, offset);
    lemma_field(w, operands, w.len() as int, k);
    let v = operand_at(operands, k);
    assert(v / 256 * 256 + v % 256 == v);
}

proof fn lemma_has_constant(op: ROp, offset: int)
    requires
        is_constant_field(op as u8, offset),
    ensures
        has_constant(op, constant_operand(offset)),
        offset == 3 || offset == 5 || offset == 6 || offset == 7 || offset == 11,
        offset == 6 <==> op == ROp::CallMethod,
{
    law_rop_bytes_distinct(op, constant_op(op as u8));
}

proof fn lemma_constant_width(op: ROp, offset: int)
    requires
        has_constant(op, constant_operand(offset)),
        offset == 3 || offset == 5 || offset == 6 || offset == 7 || offset == 11,
        offset == 6 <==> op == ROp::CallMethod,
    ensures
        constant_operand(offset) < rwidths_of(op).len(),
        rwidths_of(op)[constant_operand(offset)] == 2,
        widths_total(rwidths_of(op), constant_operand(offset)) == offset - 1,
{
    let w = rwidths_of(op);
    assert(widths_total(w, 1) == w[0]) by {
        reveal_with_fuel(widths_total, 2);
    }
    assert(widths_total(w, 2) == widths_total(w, 1) + w[1]);
    assert(widths_total(w, 3) == widths_total(w, 2) + w[2]);
    assert(widths_total(w, 4) == widths_total(w, 3) + w[3]);
    assert(widths_total(w, 5) == widths_total(w, 4) + w[4]);
}

/// Where an operand of two bytes stands among the operands.
pub(crate) proof fn lemma_field(w: Seq<usize>, operands: Seq<u16>, n: int, k: int)
    requires
        0 <= k < n <= w.len(),
        w[k] == 2,
    ensures
        ({
            let bytes = operand_bytes_of(w, operands, n);
            let at = widths_total(w, k) as int;
            let v = operand_at(operands, k);
            &&& bytes.len() == widths_total(w, n)
            &&& at + 2 <= bytes.len()
            &&& bytes[at] == (v / 256) as u8
            &&& bytes[at + 1] == (v % 256) as u8
        }),
    decreases n,
{
    lemma_fields_len(w, operands, n - 1);
    if k < n - 1 {
        lemma_field(w, operands, n - 1, k);
    }
}

proof fn lemma_fields_len(w: Seq<usize>, operands: Seq<u16>, n: int)
    requires
        n <= w.len(),
    ensures
        operand_bytes_of(w, operands, n).len() == widths_total(w, n),
    decreases n,
{
    if n > 0 {
        lemma_fields_len(w, operands, n - 1);
    }
}

proof fn lemma_constant_size(code: Seq<u8>, p: int, offset: int)
    requires
        0 <= p < code.len(),
        is_constant_field(code[p], offset),
        size_at(code, p) > 0,
    ensures
        0 < offset,
        offset + 2 <= size_at(code, p),
{
    let op = constant_op(code[p]);
    lemma_encoded_constant(op, Seq::empty(), offset);
    if op == ROp::MakeClosure {
        reveal_with_fuel(widths_total, 4);
    } else {
        lemma_size(code, p, op);
    }
}

/// Constants that are within bounds stay so when an instruction is added, whose own
/// are.
pub proof fn lemma_append_constants(code: Seq<u8>, tail: Seq<u8>, n: int)
    requires
        is_whole(code),
        constants_within(code, n),
        is_one(tail),
        forall|offset: int| #[trigger]
            is_constant_field(tail[0], offset) ==> word_at(tail, offset) < n,
    ensures
        constants_within(code + tail, n),
{
    let all = code + tail;
    let len = code.len() as int;
    lemma_append(code, tail);
    assert forall|p: int, offset: int|
        0 <= p < all.len() && #[trigger] reaches(all, 0, p) && #[trigger] is_constant_field(
            all[p],
            offset,
        ) implies word_at(all, p + offset) < n by {
        if p < len {
            assert(reaches(code, 0, p));
            assert(is_constant_field(code[p], offset));
            lemma_reach_between(code, 0, p, len);
            lemma_constant_size(code, p, offset);
            assert(word_at(all, p + offset) == word_at(code, p + offset));
        } else {
            assert(p == len);
            assert(is_constant_field(tail[0], offset));
            lemma_constant_size(tail, 0, offset);
            assert(word_at(all, len + offset) == word_at(tail, offset));
        }
    }
}

/// The target of a jump is no index of a constant.
pub proof fn lemma_patch_constants(code: Seq<u8>, pos: int, target: u16, n: int)
    requires
        is_whole(code),
        0 <= pos < code.len(),
        reaches(code, 0, pos),
        target_offset(code[pos]) is Some,
        constants_within(code, n),
    ensures
        constants_within(patched(code, pos + (target_offset(code[pos])->0), target), n),
{
    let at = target_offset(code[pos])->0;
    let after = patched(code, pos + at, target);
    lemma_patch(code, pos, target);
    lemma_jump_size(code, pos);
    assert forall|p: int, offset: int|
        0 <= p < after.len() && #[trigger] reaches(after, 0, p) && #[trigger] is_constant_field(
            after[p],
            offset,
        ) implies word_at(after, p + offset) < n by {
        assert(reaches(code, 0, p));
        lemma_reach_between(code, 0, p, code.len() as int);
        if p < pos {
            lemma_reach_between(code, 0, p, pos);
        } else if p > pos {
            lemma_reach_between(code, 0, pos, p);
        }
        assert(after[p] == code[p]);
        assert(is_constant_field(code[p], offset));
        lemma_constant_size(code, p, offset);
        if p == pos {
            assert(offset + 2 <= at) by {
                lemma_rop_fields(code[pos], offset);
            }
        }
        assert(word_at(after, p + offset) == word_at(code, p + offset));
    }
}

/// In an instruction that has both, the target stands behind the constants.
proof fn lemma_rop_fields(byte: u8, offset: int)
    requires
        is_constant_field(byte, offset),
    ensures
        target_offset(byte) matches Some(at) ==> offset + 2 <= at,
{
}

/// Whether the registers that an instruction uses are less than `n`. Its first four
/// operands are given. Instructions that use a range of registers use all of it, but
/// for the keys of `ObjectRest`, which are not counted here.
pub open spec fn registers_fit(op: ROp, a: int, b: int, c: int, d: int, n: int) -> bool {
    match op {
        ROp::Jump | ROp::ReturnUndef | ROp::Halt => true,
        ROp::LoadConst
        | ROp::LoadTrue
        | ROp::LoadFalse
        | ROp::LoadNull
        | ROp::LoadUndef
        | ROp::GetGlobal
        | ROp::GetGlobalProp
        | ROp::Super
        | ROp::NewTarget
        | ROp::ImportMeta
        | ROp::InitClass
        | ROp::Return
        | ROp::Throw
        | ROp::HaltValue
        | ROp::MakeClosure
        | ROp::JumpIfNot
        | ROp::JumpIfTruthy
        | ROp::TestLtConstJump
        | ROp::TestLeConstJump
        | ROp::IncrementRegAndJump
        | ROp::ModRegConstStrictEqConstJump
        | ROp::AddConstToRegProp
        | ROp::AddRegPropsToRegProp => a < n,
        ROp::Move
        | ROp::Neg
        | ROp::Not
        | ROp::UnaryPlus
        | ROp::Typeof
        | ROp::IsNullish
        | ROp::AppendElement
        | ROp::AppendSpread
        | ROp::GetKeysIter
        | ROp::Await
        | ROp::Yield
        | ROp::AddRegConst
        | ROp::IteratorRest
        | ROp::GetProp
        | ROp::DefineAccessor
        | ROp::ObjectRest => a < n && b < n,
        ROp::Add
        | ROp::Sub
        | ROp::Mul
        | ROp::Div
        | ROp::Mod
        | ROp::Pow
        | ROp::Equal
        | ROp::NotEqual
        | ROp::StrictEqual
        | ROp::StrictNotEqual
        | ROp::GreaterThan
        | ROp::GreaterOrEqual
        | ROp::LessThan
        | ROp::LessOrEqual
        | ROp::Instanceof
        | ROp::In
        | ROp::BitwiseAnd
        | ROp::BitwiseOr
        | ROp::BitwiseXor
        | ROp::LeftShift
        | ROp::RightShift
        | ROp::UnsignedRightShift
        | ROp::CallSpread
        | ROp::NewSpread
        | ROp::Index
        | ROp::SetIndex
        | ROp::DeleteProp => a < n && b < n && c < n,
        ROp::SetGlobal => b < n,
        ROp::SetGlobalProp => c < n,
        ROp::SetProp => a < n && c < n,
        ROp::Array | ROp::Hash => a < n && (c == 0 || b + c <= n),
        ROp::Call | ROp::New | ROp::CallMethod => a < n && b + c < n,
        ROp::CallGlobal => a < n && c + d < n,
    }
}

/// The opcode at `p`.
pub open spec fn op_at(code: Seq<u8>, p: int) -> ROp {
    choose|op: ROp| has_byte(op, code[p])
}

/// An operand of an instruction in code.
pub open spec fn operand_in(code: Seq<u8>, p: int, op: ROp, k: int) -> int {
    let at = p + 1 + widths_total(rwidths_of(op), k);
    if rwidths_of(op)[k] == 2 {
        word_at(code, at)
    } else {
        code[at] as int
    }
}

/// Whether the registers that the instruction at `p` uses are less than `n`.
pub open spec fn registers_fit_at(code: Seq<u8>, p: int, n: int) -> bool {
    let op = op_at(code, p);
    registers_fit(
        op,
        operand_in(code, p, op, 0),
        operand_in(code, p, op, 1),
        operand_in(code, p, op, 2),
        operand_in(code, p, op, 3),
        n,
    )
}

/// Whether the registers that code uses are less than `n`.
pub open spec fn registers_within(code: Seq<u8>, n: int) -> bool {
    forall|p: int|
        0 <= p < code.len() && #[trigger] reaches(code, 0, p) ==> registers_fit_at(code, p, n)
}

pub proof fn lemma_more_registers(code: Seq<u8>, m: int, n: int)
    requires
        m <= n,
        registers_within(code, m),
    ensures
        registers_within(code, n),
{
    assert forall|p: int| 0 <= p < code.len() && #[trigger] reaches(code, 0, p) implies
        registers_fit_at(code, p, n) by {
        assert(registers_fit_at(code, p, m));
    }
}

/// Whether the operands `x` are at most the operands `y`, as far as an instruction has
/// them.
spec fn operands_less(op: ROp, x: (int, int, int, int), y: (int, int, int, int)) -> bool {
    let w = rwidths_of(op);
    &&& w.len() > 0 ==> 0 <= x.0 <= y.0
    &&& w.len() > 1 ==> 0 <= x.1 <= y.1
    &&& w.len() > 2 ==> 0 <= x.2 <= y.2
    &&& w.len() > 3 ==> 0 <= x.3 <= y.3
}

proof fn lemma_fit_less(op: ROp, x: (int, int, int, int), y: (int, int, int, int), n: int)
    requires
        operands_less(op, x, y),
        registers_fit(op, y.0, y.1, y.2, y.3, n),
    ensures
        registers_fit(op, x.0, x.1, x.2, x.3, n),
{
}

pub(crate) proof fn lemma_op_at(code: Seq<u8>, p: int, op: ROp)
    requires
        0 <= p < code.len(),
        has_byte(op, code[p]),
    ensures
        op_at(code, p) == op,
{
    law_rop_bytes_distinct(op_at(code, p), op);
}

/// The operands of an instruction lie within it.
pub(crate) proof fn lemma_operand_inside(op: ROp, k: int)
    requires
        0 <= k < rwidths_of(op).len(),
    ensures
        rwidths_of(op)[k] == 1 || rwidths_of(op)[k] == 2,
        widths_total(rwidths_of(op), k) + rwidths_of(op)[k] <= widths_total(
            rwidths_of(op),
            rwidths_of(op).len() as int,
        ),
{
    let w = rwidths_of(op);
    assert(forall|i: int| 0 <= i < w.len() ==> w[i] == 1 || w[i] == 2);
    lemma_widths_grow(w, k + 1, w.len() as int);
}

proof fn lemma_widths_grow(w: Seq<usize>, m: int, n: int)
    requires
        0 <= m <= n <= w.len(),
    ensures
        widths_total(w, m) <= widths_total(w, n),
    decreases n,
{
    if m < n {
        lemma_widths_grow(w, m, n - 1);
    }
}

/// The operands of an instruction that is the same in other code are the same there.
pub(crate) proof fn lemma_same_operand(x: Seq<u8>, p: int, y: Seq<u8>, q: int, op: ROp, k: int)
    requires
        0 <= k < rwidths_of(op).len(),
        0 <= p,
        0 <= q,
        forall|i: int|
            1 + widths_total(rwidths_of(op), k) <= i < 1 + widths_total(rwidths_of(op), k)
                + rwidths_of(op)[k] ==> #[trigger] x[p + i] == y[q + i],
    ensures
        operand_in(x, p, op, k) == operand_in(y, q, op, k),
{
    lemma_operand_inside(op, k);
    let at = 1 + widths_total(rwidths_of(op), k);
    assert(x[p + at] == y[q + at]);
    if rwidths_of(op)[k] == 2 {
        assert(x[p + (at + 1)] == y[q + (at + 1)]);
    }
}

/// The same for all operands of an instruction that was copied.
proof fn lemma_copied(x: Seq<u8>, p: int, y: Seq<u8>, q: int, n: int)
    requires
        0 <= p < x.len(),
        0 <= q < y.len(),
        size_at(x, p) > 0,
        forall|i: int| 0 <= i < size_at(x, p) ==> #[trigger] x[p + i] == y[q + i],
        registers_fit_at(x, p, n),
    ensures
        registers_fit_at(y, q, n),
{
    assert(x[p + 0] == y[q + 0]);
    let op = op_at(x, p);
    assert(has_byte(op, x[p]));
    lemma_op_at(y, q, op);
    let w = rwidths_of(op);
    assert(1 + widths_total(w, w.len() as int) <= size_at(x, p)) by {
        law_rop_bytes_distinct(op, ROp::MakeClosure);
        if op == ROp::MakeClosure {
            reveal_with_fuel(widths_total, 4);
        } else {
            lemma_size(x, p, op);
        }
    }
    assert forall|k: int| 0 <= k < w.len() implies #[trigger] operand_in(x, p, op, k)
        == operand_in(y, q, op, k) && operand_in(y, q, op, k) >= 0 by {
        lemma_operand_inside(op, k);
        lemma_same_operand(x, p, y, q, op, k);
    }
    lemma_fit_less(
        op,
        (
            operand_in(y, q, op, 0),
            operand_in(y, q, op, 1),
            operand_in(y, q, op, 2),
            operand_in(y, q, op, 3),
        ),
        (
            operand_in(x, p, op, 0),
            operand_in(x, p, op, 1),
            operand_in(x, p, op, 2),
            operand_in(x, p, op, 3),
        ),
        n,
    );
}

/// The registers of an instruction that is encoded are within bounds if those that
/// were given are.
pub proof fn lemma_encoded_registers(op: ROp, operands: Seq<u16>, n: int)
    requires
        registers_fit(
            op,
            operand_at(operands, 0) as int,
            operand_at(operands, 1) as int,
            operand_at(operands, 2) as int,
            operand_at(operands, 3) as int,
            n,
        ),
    ensures
        registers_fit_at(rencode(op, operands), 0, n),
{
    let code = rencode(op, operands);
    law_rencode_length(op, operands);
    lemma_op_at(code, 0, op);
    let w = rwidths_of(op);
    assert forall|k: int| 0 <= k < w.len() implies 0 <= #[trigger] operand_in(code, 0, op, k)
        <= operand_at(operands, k) by {
        lemma_operand_inside(op, k);
        let fields = operand_bytes_of(w, operands, w.len() as int);
        let at = widths_total(w, k) as int;
        let v = operand_at(operands, k);
        if w[k] == 2 {
            lemma_field(w, operands, w.len() as int, k);
            assert(v / 256 * 256 + v % 256 == v);
            assert(code[1 + at] == fields[at] && code[1 + at + 1] == fields[at + 1]);
        } else {
            lemma_short_field(w, operands, w.len() as int, k);
            assert(code[1 + at] == fields[at]);
        }
    }
    lemma_fit_less(
        op,
        (
            operand_in(code, 0, op, 0),
            operand_in(code, 0, op, 1),
            operand_in(code, 0, op, 2),
            operand_in(code, 0, op, 3),
        ),
        (
            operand_at(operands, 0) as int,
            operand_at(operands, 1) as int,
            operand_at(operands, 2) as int,
            operand_at(operands, 3) as int,
        ),
        n,
    );
}

/// Where an operand of one byte stands among the operands.
pub(crate) proof fn lemma_short_field(w: Seq<usize>, operands: Seq<u16>, n: int, k: int)
    requires
        0 <= k < n <= w.len(),
        w[k] == 1,
    ensures
        ({
            let bytes = operand_bytes_of(w, operands, n);
            let at = widths_total(w, k) as int;
            &&& bytes.len() == widths_total(w, n)
            &&& at + 1 <= bytes.len()
            &&& bytes[at] == (operand_at(operands, k) % 256) as u8
        }),
    decreases n,
{
    lemma_fields_len(w, operands, n - 1);
    if k < n - 1 {
        lemma_short_field(w, operands, n - 1, k);
    }
}

/// Registers that are within bounds stay so when an instruction is added, whose own
/// are.
pub proof fn lemma_append_registers(code: Seq<u8>, tail: Seq<u8>, n: int)
    requires
        is_whole(code),
        registers_within(code, n),
        is_one(tail),
        registers_fit_at(tail, 0, n),
    ensures
        registers_within(code + tail, n),
{
    let all = code + tail;
    let len = code.len() as int;
    lemma_append(code, tail);
    assert forall|p: int| 0 <= p < all.len() && #[trigger] reaches(all, 0, p) implies
        registers_fit_at(all, p, n) by {
        if p < len {
            assert(reaches(code, 0, p));
            lemma_reach_between(code, 0, p, len);
            assert forall|i: int| 0 <= i < size_at(code, p) implies #[trigger] code[p + i] == all[p
                + i] by {}
            lemma_copied(code, p, all, p, n);
        } else {
            assert(p == len);
            assert forall|i: int| 0 <= i < size_at(tail, 0) implies #[trigger] tail[0 + i]
                == all[len + i] by {}
            lemma_copied(tail, 0, all, len, n);
        }
    }
}

/// The target of a jump is no register.
pub proof fn lemma_patch_registers(code: Seq<u8>, pos: int, target: u16, n: int)
    requires
        is_whole(code),
        0 <= pos < code.len(),
        reaches(code, 0, pos),
        target_offset(code[pos]) is Some,
        registers_within(code, n),
    ensures
        registers_within(patched(code, pos + (target_offset(code[pos])->0), target), n),
{
    let at = target_offset(code[pos])->0;
    let after = patched(code, pos + at, target);
    lemma_patch(code, pos, target);
    lemma_jump_size(code, pos);
    assert forall|p: int| 0 <= p < after.len() && #[trigger] reaches(after, 0, p) implies
        registers_fit_at(after, p, n) by {
        assert(reaches(code, 0, p));
        lemma_reach_between(code, 0, p, code.len() as int);
        if p < pos {
            lemma_reach_between(code, 0, p, pos);
        } else if p > pos {
            lemma_reach_between(code, 0, pos, p);
        }
        if p != pos {
            assert forall|i: int| 0 <= i < size_at(code, p) implies #[trigger] code[p + i]
                == after[p + i] by {}
            lemma_copied(code, p, after, p, n);
        } else {
            let op = op_at(code, pos);
            lemma_jump_op(code, pos);
            assert(after[pos] == code[pos]);
            lemma_op_at(after, pos, op);
            if op != ROp::Jump {
                assert(widths_total(rwidths_of(op), 0) == 0);
                assert forall|i: int| 1 <= i < 3 implies #[trigger] code[pos + i] == after[pos
                    + i] by {}
                lemma_same_operand(code, pos, after, pos, op, 0);
            }
        }
    }
}

proof fn lemma_jump_op(code: Seq<u8>, p: int)
    requires
        0 <= p < code.len(),
        target_offset(code[p]) is Some,
    ensures
        ({
            let op = op_at(code, p);
            &&& has_byte(op, code[p])
            &&& op == ROp::Jump || (op == ROp::JumpIfNot || op == ROp::JumpIfTruthy || op
                == ROp::TestLtConstJump || op == ROp::TestLeConstJump || op
                == ROp::IncrementRegAndJump || op == ROp::ModRegConstStrictEqConstJump) && (
            target_offset(code[p])->0) >= 3
        }),
{
    let byte = code[p];
    let op = if byte == ROp::Jump as u8 {
        ROp::Jump
    } else if byte == ROp::JumpIfNot as u8 {
        ROp::JumpIfNot
    } else if byte == ROp::JumpIfTruthy as u8 {
        ROp::JumpIfTruthy
    } else if byte == ROp::TestLtConstJump as u8 {
        ROp::TestLtConstJump
    } else if byte == ROp::TestLeConstJump as u8 {
        ROp::TestLeConstJump
    } else if byte == ROp::IncrementRegAndJump as u8 {
        ROp::IncrementRegAndJump
    } else {
        ROp::ModRegConstStrictEqConstJump
    };
    lemma_op_at(code, p, op);
}

} // verus!
