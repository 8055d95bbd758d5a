//! How stack code divides into instructions.
use vstd::prelude::*;

use crate::code::{
    encode, law_encode_length, law_opcode_bytes_distinct, widths_of, widths_total, Opcode,
};
use crate::codegen::{patched, with_byte};

verus! {

/// Whether `byte` is the code of `op`.
pub open spec fn has_code(op: Opcode, byte: u8) -> bool {
    op as u8 == byte
}

/// The size of an instruction.
pub open spec fn length_of(op: Opcode) -> int {
    (1 + widths_total(widths_of(op), widths_of(op).len() as int)) as int
}

/// The size of the instruction at `p`, and zero where there is none.
pub open spec fn length_at(code: Seq<u8>, p: int) -> int {
    if 0 <= p < code.len() && exists|op: Opcode| has_code(op, code[p]) {
        length_of(choose|op: Opcode| has_code(op, code[p]))
    } else {
        0
    }
}

/// Whether the instructions from `i` on lead to `p`.
pub open spec fn leads(code: Seq<u8>, i: int, p: int) -> bool
    decreases p - i,
{
    i == p || (0 <= i < i + length_at(code, i) <= p && leads(code, i + length_at(code, i), p))
}

/// Whether code consists of whole instructions.
pub open spec fn is_complete(code: Seq<u8>) -> bool {
    leads(code, 0, code.len() as int)
}

/// Whether the instruction at `p` has that code, and its operands reach from `offset`
/// two bytes on.
pub open spec fn has_word(code: Seq<u8>, p: int, offset: int) -> bool {
    &&& 0 <= p < code.len()
    &&& leads(code, 0, p)
    &&& 0 <= offset
    &&& offset + 3 <= length_at(code, p)
}

pub proof fn lemma_length(code: Seq<u8>, p: int, op: Opcode)
    requires
        0 <= p < code.len(),
        has_code(op, code[p]),
    ensures
        length_at(code, p) == length_of(op),
        length_of(op) > 0,
{
    law_opcode_bytes_distinct(choose|o: Opcode| has_code(o, code[p]), op);
}

proof fn lemma_order(code: Seq<u8>, i: int, p: int)
    requires
        leads(code, i, p),
    ensures
        i <= p,
{
}

proof fn lemma_on(code: Seq<u8>, i: int, p: int, q: int)
    requires
        leads(code, i, p),
        leads(code, p, q),
    ensures
        leads(code, i, q),
    decreases p - i,
{
    if i != p {
        lemma_on(code, i + length_at(code, i), p, q);
        lemma_order(code, i + length_at(code, i), q);
    }
}

pub proof fn lemma_between(code: Seq<u8>, i: int, p: int, q: int)
    requires
        leads(code, i, p),
        leads(code, i, q),
        p <= q,
    ensures
        leads(code, p, q),
    decreases p - i,
{
    if i != p {
        lemma_between(code, i + length_at(code, i), p, q);
    }
}

/// What leads to `p` depends on the sizes of the instructions before `p` alone.
proof fn lemma_same_lengths(a: Seq<u8>, b: Seq<u8>, i: int, p: int)
    requires
        leads(a, 0, i),
        forall|k: int|
            0 <= k < p && #[trigger] leads(a, 0, k) ==> length_at(b, k) == length_at(a, k),
    ensures
        leads(a, i, p) ==> leads(b, i, p),
    decreases p - i,
{
    if leads(a, i, p) && i != p {
        lemma_order(a, 0, i);
        let n = length_at(a, i);
        lemma_order(a, i + n, p);
        assert(leads(a, i + n, i + n));
        lemma_on(a, 0, i, i + n);
        assert(length_at(b, i) == n);
        lemma_same_lengths(a, b, i + n, p);
    }
}

/// Code whose instructions have the sizes of those of complete code, up to an end, is
/// complete up to there.
pub proof fn lemma_resized(a: Seq<u8>, b: Seq<u8>, p: int)
    requires
        forall|k: int|
            0 <= k < p && #[trigger] leads(a, 0, k) ==> length_at(b, k) == length_at(a, k),
        leads(a, 0, p),
    ensures
        leads(b, 0, p),
{
    lemma_same_lengths(a, b, 0, p);
}

/// An instruction added to complete code makes complete code.
pub proof fn lemma_add(code: Seq<u8>, op: Opcode, operands: Seq<u16>)
    requires
        is_complete(code),
    ensures
        ({
            let all = code + encode(op, operands);
            &&& is_complete(all)
            &&& all.len() == code.len() + length_of(op)
            &&& all[code.len() as int] == op as u8
            &&& length_at(all, code.len() as int) == length_of(op)
            &&& leads(all, 0, code.len() as int)
            &&& forall|p: int| 0 <= p <= code.len() && #[trigger] leads(code, 0, p) ==> leads(
                all,
                0,
                p,
            )
            &&& forall|p: int, offset: int| #[trigger]
                has_word(code, p, offset) ==> has_word(all, p, offset)
        }),
{
    let tail = encode(op, operands);
    let all = code + tail;
    let n = code.len() as int;
    law_encode_length(op, operands);
    assert(all[n] == tail[0]);
    assert forall|p: int| 0 <= p <= n && #[trigger] leads(code, 0, p) implies leads(
        all,
        0,
        p,
    ) by {
        assert forall|k: int| 0 <= k < p && #[trigger] leads(code, 0, k) implies length_at(all, k)
            == length_at(code, k) by {
            assert(all[k] == code[k]);
        }
        lemma_resized(code, all, p);
    }
    assert(has_code(op, all[n]));
    lemma_length(all, n, op);
    assert(leads(all, n + length_of(op), n + length_of(op)));
    assert(leads(all, n, n + length_of(op)));
    lemma_on(all, 0, n, n + length_of(op));
    assert forall|p: int, offset: int| #[trigger] has_word(code, p, offset) implies has_word(
        all,
        p,
        offset,
    ) by {
        assert(all[p] == code[p]);
    }
}

/// Complete code cut off where an instruction starts is complete.
pub proof fn lemma_cut(code: Seq<u8>, p: int)
    requires
        leads(code, 0, p),
        0 <= p <= code.len(),
    ensures
        is_complete(code.take(p)),
        forall|q: int, offset: int| #[trigger]
            has_word(code, q, offset) && q < p ==> has_word(code.take(p), q, offset),
{
    let short = code.take(p);
    assert forall|k: int| 0 <= k < p && #[trigger] leads(code, 0, k) implies length_at(short, k)
        == length_at(code, k) by {
        assert(short[k] == code[k]);
    }
    lemma_resized(code, short, p);
    assert forall|q: int, offset: int| #[trigger] has_word(code, q, offset) && q
        < p implies has_word(short, q, offset) by {
        assert forall|k: int| 0 <= k < q && #[trigger] leads(code, 0, k) implies length_at(
            short,
            k,
        ) == length_at(code, k) by {
            assert(short[k] == code[k]);
        }
        lemma_resized(code, short, q);
        assert(short[q] == code[q]);
    }
}

/// Setting a word among the operands of an instruction keeps code complete.
pub proof fn lemma_set_word(code: Seq<u8>, pos: int, offset: int, word: u16)
    requires
        is_complete(code),
        has_word(code, pos, offset),
    ensures
        ({
            let after = patched(code, pos + 1 + offset, word);
            &&& after.len() == code.len()
            &&& is_complete(after)
            &&& forall|p: int| 0 <= p <= code.len() && #[trigger] leads(code, 0, p) ==> leads(
                after,
                0,
                p,
            )
            &&& forall|p: int| 0 <= p < code.len() && #[trigger] leads(code, 0, p) ==> after[p]
                == code[p]
            &&& forall|p: int, o: int| #[trigger] has_word(code, p, o) ==> has_word(after, p, o)
        }),
{
    let at = pos + 1 + offset;
    let after = patched(code, at, word);
    lemma_between(code, 0, pos, code.len() as int);
    assert forall|p: int| 0 <= p < code.len() && #[trigger] leads(code, 0, p) implies after[p]
        == code[p] by {
        if p > pos {
            lemma_between(code, 0, pos, p);
        }
    }
    assert forall|p: int| 0 <= p <= code.len() && #[trigger] leads(code, 0, p) implies leads(
        after,
        0,
        p,
    ) by {
        lemma_resized(code, after, p);
    }
}

/// Replacing the code of an instruction by that of one of the same size keeps code
/// complete.
pub proof fn lemma_recoded(code: Seq<u8>, pos: int, op: Opcode)
    requires
        is_complete(code),
        0 <= pos < code.len(),
        leads(code, 0, pos),
        length_at(code, pos) == length_of(op),
    ensures
        ({
            let after = with_byte(code, pos, op as u8);
            &&& after.len() == code.len()
            &&& is_complete(after)
            &&& leads(after, 0, pos)
            &&& length_at(after, pos) == length_of(op)
            &&& forall|p: int, o: int| #[trigger] has_word(code, p, o) ==> has_word(after, p, o)
        }),
{
    let after = with_byte(code, pos, op as u8);
    assert(has_code(op, after[pos]));
    lemma_length(after, pos, op);
    assert forall|k: int| 0 <= k < code.len() && #[trigger] leads(code, 0, k) implies length_at(
        after,
        k,
    ) == length_at(code, k) by {
        if k != pos {
            assert(after[k] == code[k]);
        }
    }
    assert forall|p: int| 0 <= p <= code.len() && #[trigger] leads(code, 0, p) implies leads(
        after,
        0,
        p,
    ) by {
        lemma_resized(code, after, p);
    }
}

/// Replacing the last instruction by a longer one keeps code complete.
pub proof fn lemma_lengthened(code: Seq<u8>, pos: int, op: Opcode, a: u8, b: u8)
    requires
        is_complete(code),
        0 <= pos < code.len(),
        leads(code, 0, pos),
        length_of(op) == code.len() - pos + 2,
    ensures
        ({
            let after = with_byte(code, pos, op as u8).push(a).push(b);
            &&& is_complete(after)
            &&& forall|p: int, o: int| #[trigger]
                has_word(code, p, o) && p < pos ==> has_word(after, p, o)
        }),
{
    let after = with_byte(code, pos, op as u8).push(a).push(b);
    assert(has_code(op, after[pos]));
    lemma_length(after, pos, op);
    assert forall|k: int| 0 <= k < pos && #[trigger] leads(code, 0, k) implies length_at(after, k)
        == length_at(code, k) by {
        assert(after[k] == code[k]);
    }
    lemma_resized(code, after, pos);
    assert(leads(after, after.len() as int, after.len() as int));
    assert(leads(after, pos, after.len() as int));
    lemma_on(after, 0, pos, after.len() as int);
    assert forall|p: int, o: int| #[trigger] has_word(code, p, o) && p < pos implies has_word(
        after,
        p,
        o,
    ) by {
        lemma_resized(code, after, p);
        assert(after[p] == code[p]);
    }
}

} // verus!
