//! What holds of register code at each point of its generation: it consists of whole
//! instructions, and its jumps go to instructions.
use vstd::prelude::*;

use crate::ast::{Expression, Statement};
use crate::builtins::{global_member, member_object};
use crate::code::operand_at;
use crate::codegen::{
    loop_index, with_parameters, without_switch, LoopView, Slot, PLACEHOLDER,
};
use crate::names::{without, Names};
use crate::object::{ClassView, FunctionView, ObjectView};
use crate::parts::{
    class_all, classes_all, lemma_class_filed, lemma_object_weaker, object_all,
};
use crate::rcode::{law_rencode_length, rencode, ROp};
use crate::rcodegen::{
    compound_rop, deferring, infix_rop, numeric_constant, rfuse_compare, rfuse_increment, rfuse_mod_eq,
    target_offset, RTryView, RView,
};
use crate::rlayout::{
    constant_operand, constants_within, has_constant, is_constant_field, is_whole, jumps_land,
    lemma_append, lemma_append_constants, lemma_append_jumps, lemma_encoded_constant,
    lemma_append_registers, lemma_encoded_is_one, lemma_encoded_registers, lemma_encoded_target,
    lemma_more_registers, lemma_patch, lemma_patch_constants, lemma_patch_registers, reaches,
    registers_fit, registers_within, word_at,
};
use crate::rules::blank_function;

verus! {

/// Whether no function among constants captures more variables than an instruction
/// can count.
pub open spec fn is_narrow(constants: Seq<ObjectView>) -> bool {
    forall|i: int|
        0 <= i < constants.len() ==> (#[trigger] constants[i] matches ObjectView::Function(f)
            ==> f.closure_captures.len() <= 255)
}

/// Whether the code of a function consists of whole instructions, refers to constants
/// and registers that are there, and jumps to instructions. Nothing is said of the
/// registers where all were used up.
pub open spec fn is_code_sound(f: FunctionView) -> bool {
    is_narrow(f.constants) && f.instructions.len() <= usize::MAX ==> {
        &&& is_whole(f.instructions)
        &&& constants_within(f.instructions, f.constants.len() as int)
        &&& f.register_count > 0 ==> registers_within(f.instructions, f.register_count as int)
        &&& f.instructions.len() <= 0xffff ==> jumps_land(f.instructions)
    }
}

/// The same of a function and the functions among its constants, the functions among
/// their constants, and so on to a depth. Nothing is said of functions with tens of
/// thousands of parameters, whose registers cannot be counted.
pub open spec fn is_laid_out_to(f: FunctionView, depth: nat) -> bool
    decreases depth, 0int,
{
    f.num_parameters < 0xfffe ==> is_code_sound(f) && (depth > 0 ==> forall|i: int|
        0 <= i < f.constants.len() ==> object_all(
            #[trigger] f.constants[i],
            laid_out_to((depth - 1) as nat),
        ))
}

pub open spec fn laid_out_to(depth: nat) -> spec_fn(FunctionView) -> bool
    decreases depth, 1int,
{
    |f: FunctionView| is_laid_out_to(f, depth)
}

/// Whether the code of a function, and of the functions in it, is in order.
pub open spec fn is_laid_out(f: FunctionView) -> bool {
    forall|depth: nat| #[trigger] is_laid_out_to(f, depth)
}

pub open spec fn laid_out() -> spec_fn(FunctionView) -> bool {
    |f: FunctionView| is_laid_out(f)
}

/// Whether the code of the functions and classes among constants is in order.
pub open spec fn are_laid_out(constants: Seq<ObjectView>) -> bool {
    forall|i: int| 0 <= i < constants.len() ==> object_all(#[trigger] constants[i], laid_out())
}

/// A function is in order if its own code is, and the functions among its constants
/// are.
proof fn lemma_laid_out(f: FunctionView)
    requires
        is_code_sound(f),
        are_laid_out(f.constants),
    ensures
        is_laid_out(f),
{
    assert forall|depth: nat| #[trigger] is_laid_out_to(f, depth) by {
        if depth > 0 {
            let q = laid_out_to((depth - 1) as nat);
            assert forall|i: int| 0 <= i < f.constants.len() implies object_all(
                #[trigger] f.constants[i],
                q,
            ) by {
                assert forall|g: FunctionView| #[trigger] laid_out()(g) implies q(g) by {
                    assert(is_laid_out_to(g, (depth - 1) as nat));
                }
                lemma_object_weaker(f.constants[i], laid_out(), q);
            }
        }
    }
}

/// A function that was rejected is in order.
pub proof fn lemma_blank_is_laid_out()
    ensures
        is_laid_out(blank_function()),
{
    lemma_laid_out(blank_function());
}

/// Whether the instructions of a state can be counted.
spec fn is_counted(s: RView) -> bool {
    is_narrow(s.constants) && s.instructions.len() <= usize::MAX
}

/// Whether an instruction starts at `p`, or the code ends there.
#[verifier::opaque]
pub closed spec fn is_place(s: RView, p: usize) -> bool {
    is_counted(s) ==> p <= s.instructions.len() && reaches(s.instructions, 0, p as int)
}

/// Whether there is a constant with an index.
pub open spec fn is_constant(s: RView, idx: u16) -> bool {
    idx < s.constants.len()
}

pub open spec fn are_constants(s: RView, list: Seq<u16>) -> bool {
    forall|i: int| 0 <= i < list.len() ==> is_constant(s, #[trigger] list[i])
}

pub open spec fn are_places(s: RView, positions: Seq<usize>) -> bool {
    forall|i: int| 0 <= i < positions.len() ==> is_place(s, #[trigger] positions[i])
}

/// Whether a jump to `w` is in order.
#[verifier::opaque]
pub closed spec fn lands(s: RView, w: u16) -> bool {
    is_counted(s) && s.instructions.len() <= 0xffff ==> w == PLACEHOLDER || is_place(
        s,
        w as usize,
    )
}

spec fn loop_sound(s: RView, l: LoopView) -> bool {
    &&& are_places(s, l.break_positions)
    &&& are_places(s, l.continue_positions)
    &&& is_place(s, l.continue_target)
}

spec fn try_sound(s: RView, t: RTryView) -> bool {
    &&& are_places(s, t.throw_jumps)
    &&& are_places(s, t.return_jumps)
}

/// Code that is in order consists of whole instructions, and a place is where one of them
/// starts or where they end.
pub proof fn lemma_place_is_start(s: RView, p: usize)
    requires
        is_sound(s),
        is_place(s, p),
        is_narrow(s.constants),
        s.instructions.len() <= usize::MAX,
    ensures
        is_whole(s.instructions),
        p <= s.instructions.len(),
        reaches(s.instructions, 0, p as int),
{
    reveal(is_sound);
    reveal(is_place);
}

/// The jumps that wait for their target in a loop are places.
pub proof fn lemma_waiting_are_places(s: RView, n: int)
    requires
        is_sound(s),
        0 <= n < s.loop_stack.len(),
    ensures
        are_places(s, s.loop_stack[n].break_positions),
        are_places(s, s.loop_stack[n].continue_positions),
        is_place(s, s.loop_stack[n].continue_target),
{
    reveal(is_sound);
    assert(loop_sound(s, s.loop_stack[n]));
}

/// The same of the jumps that wait in a `try` statement.
pub proof fn lemma_throws_are_places(s: RView, n: int)
    requires
        is_sound(s),
        0 <= n < s.try_stack.len(),
    ensures
        are_places(s, s.try_stack[n].throw_jumps),
        are_places(s, s.try_stack[n].return_jumps),
{
    reveal(is_sound);
    assert(try_sound(s, s.try_stack[n]));
}

/// Whether the locals of a table are registers up to `m`.
pub open spec fn names_fit(t: Names<u16>, m: u16) -> bool {
    &&& forall|name: Seq<char>| #[trigger] t.has(name) ==> t.map[name] <= m
    &&& forall|i: int| 0 <= i < t.order.len() ==> t.has(#[trigger] t.order[i])
}

proof fn lemma_name_set(t: Names<u16>, name: Seq<char>, r: u16, m: u16)
    requires
        names_fit(t, m),
        r <= m,
    ensures
        names_fit(t.set(name, r), m),
{
    let u = t.set(name, r);
    assert forall|n: Seq<char>| #[trigger] u.has(n) implies u.map[n] <= m by {
        assert(n == name || t.has(n));
    }
    assert forall|i: int| 0 <= i < u.order.len() implies u.has(#[trigger] u.order[i]) by {
        if i < t.order.len() {
            assert(t.has(t.order[i]));
        }
    }
}

proof fn lemma_name_unset(t: Names<u16>, name: Seq<char>, m: u16)
    requires
        names_fit(t, m),
    ensures
        names_fit(t.unset(name), m),
{
    let u = t.unset(name);
    assert forall|n: Seq<char>| #[trigger] u.has(n) implies u.map[n] <= m by {
        assert(t.has(n));
    }
    assert forall|i: int| 0 <= i < u.order.len() implies u.has(#[trigger] u.order[i]) by {
        lemma_without(t.order, name, i);
        let k = choose|k: int| 0 <= k < t.order.len() && #[trigger] t.order[k] == u.order[i];
        assert(t.has(t.order[k]));
    }
}

proof fn lemma_without(order: Seq<Seq<char>>, name: Seq<char>, i: int)
    requires
        0 <= i < without(order, name).len(),
    ensures
        without(order, name)[i] != name,
        exists|k: int| 0 <= k < order.len() && #[trigger] order[k] == without(order, name)[i],
    decreases order.len(),
{
    let before = without(order.drop_last(), name);
    if order.last() == name || i < before.len() {
        lemma_without(order.drop_last(), name, i);
        let k = choose|k: int|
            0 <= k < order.drop_last().len() && #[trigger] order.drop_last()[k] == before[i];
        assert(order[k] == before[i]);
    } else {
        assert(order[order.len() - 1] == order.last());
    }
}

proof fn lemma_parameters_fit(t: Names<u16>, names: Seq<Seq<char>>, i: int, m: u16)
    requires
        names_fit(t, m),
        names.len() <= m + 1,
        0 <= i,
    ensures
        names_fit(with_parameters(t, names, i), m),
    decreases names.len() - i,
{
    reveal(with_parameters);
    if i < names.len() {
        lemma_name_set(t, names[i], i as u16, m);
        lemma_parameters_fit(t.set(names[i], i as u16), names, i + 1, m);
    }
}

/// Whether locals that are hidden for the moment are registers up to `m`.
pub open spec fn hidden_fit(hidden: Seq<(Seq<char>, Option<u16>)>, m: u16) -> bool {
    forall|i: int|
        0 <= i < hidden.len() ==> ((#[trigger] hidden[i]).1 matches Some(r) ==> r <= m)
}

/// Whether a value is in a register up to `m`, if there is one.
pub open spec fn last_fits(last: Option<u16>, m: u16) -> bool {
    last matches Some(r) ==> r <= m
}

/// Whether `count` registers from `base` on are counted, unless all registers were
/// used up.
pub open spec fn is_range(s: RView, base: u16, count: int) -> bool {
    s.max_reg < 0xffff ==> count == 0 || base + count <= s.max_reg + 1
}

/// Whether the constants that are shared are there.
spec fn slots_sound(s: RView) -> bool {
    &&& forall|k: Seq<char>| #[trigger]
        s.string_slots.dom().contains(k) ==> s.string_slots[k] < s.constants.len()
    &&& forall|k: u64| #[trigger]
        s.int_slots.dom().contains(k) ==> s.int_slots[k] < s.constants.len()
    &&& forall|k: u64| #[trigger]
        s.float_slots.dom().contains(k) ==> s.float_slots[k] < s.constants.len()
}

/// Whether the code that was generated so far is in order.
#[verifier::opaque]
pub closed spec fn is_sound(s: RView) -> bool {
    &&& are_laid_out(s.constants)
    &&& is_counted(s) ==> {
        &&& is_whole(s.instructions)
        &&& constants_within(s.instructions, s.constants.len() as int)
        &&& s.max_reg < 0xffff ==> registers_within(s.instructions, s.max_reg + 1)
        &&& s.instructions.len() <= 0xffff ==> jumps_land(s.instructions)
    }
    &&& names_fit(s.locals, s.max_reg)
    &&& classes_all(s.class_defs, laid_out())
    &&& slots_sound(s)
    &&& forall|i: int| 0 <= i < s.loop_stack.len() ==> loop_sound(s, #[trigger] s.loop_stack[i])
    &&& forall|i: int| 0 <= i < s.try_stack.len() ==> try_sound(s, #[trigger] s.try_stack[i])
}

/// Whether code is in order, and was added to what was in order before.
#[verifier::opaque]
pub closed spec fn grows(b: RView, s: RView) -> bool {
    &&& is_sound(b)
    &&& is_sound(s)
    &&& b.instructions.len() <= s.instructions.len()
    &&& b.max_reg <= s.max_reg
    &&& b.constants.len() <= s.constants.len()
    &&& forall|i: int| 0 <= i < b.constants.len() ==> s.constants[i] == #[trigger] b.constants[i]
    &&& forall|p: usize| #[trigger] is_place(b, p) ==> is_place(s, p)
}

pub proof fn lemma_grows_sound(b: RView, s: RView)
    requires
        grows(b, s),
    ensures
        is_sound(b),
        is_sound(s),
        grows(s, s),
{
    reveal(grows);
}

pub proof fn lemma_grows_self(s: RView)
    requires
        is_sound(s),
    ensures
        grows(s, s),
{
    reveal(grows);
}

pub proof fn lemma_grows_on(a: RView, b: RView, c: RView)
    requires
        grows(a, b),
        grows(b, c),
    ensures
        grows(a, c),
{
    reveal(grows);
    assert forall|i: int| 0 <= i < a.constants.len() implies c.constants[i]
        == #[trigger] a.constants[i] by {
        assert(b.constants[i] == a.constants[i]);
    }
}

/// A state that differs from another one only in what code does not depend on.
proof fn lemma_same(b: RView, s: RView, t: RView)
    requires
        grows(b, s),
        t.instructions == s.instructions,
        t.constants == s.constants,
        t.loop_stack == s.loop_stack,
        t.try_stack == s.try_stack,
        t.string_slots == s.string_slots,
        t.int_slots == s.int_slots,
        t.float_slots == s.float_slots,
        s.max_reg <= t.max_reg,
        t.locals == s.locals || names_fit(t.locals, t.max_reg),
        t.class_defs == s.class_defs || classes_all(t.class_defs, laid_out()),
    ensures
        grows(b, t),
{
    reveal(grows);
    reveal(is_sound);
    reveal(is_place);
    if is_counted(t) && t.max_reg < 0xffff {
        lemma_more_registers(s.instructions, s.max_reg + 1, t.max_reg + 1);
    }
    assert forall|p: usize| is_place(s, p) == #[trigger] is_place(t, p) by {}
    assert forall|i: int| 0 <= i < t.loop_stack.len() implies loop_sound(
        t,
        #[trigger] t.loop_stack[i],
    ) by {
        assert(loop_sound(s, s.loop_stack[i]));
    }
    assert forall|i: int| 0 <= i < t.try_stack.len() implies try_sound(
        t,
        #[trigger] t.try_stack[i],
    ) by {
        assert(try_sound(s, s.try_stack[i]));
    }
}

/// The same with constants added.
proof fn lemma_more_constants(b: RView, s: RView, t: RView)
    requires
        grows(b, s),
        t.instructions == s.instructions,
        s.constants.len() <= t.constants.len(),
        forall|i: int| 0 <= i < s.constants.len() ==> t.constants[i] == #[trigger] s.constants[i],
        are_laid_out(t.constants),
        slots_sound(t),
        t.locals == s.locals,
        t.class_defs == s.class_defs,
        t.max_reg == s.max_reg,
        t.loop_stack == s.loop_stack,
        t.try_stack == s.try_stack,
    ensures
        grows(b, t),
{
    reveal(grows);
    reveal(is_sound);
    reveal(is_place);
    assert(is_counted(t) ==> is_counted(s)) by {
        if is_counted(t) {
            assert forall|i: int| 0 <= i < s.constants.len() implies (
            #[trigger] s.constants[i] matches ObjectView::Function(f) ==> f.closure_captures.len()
                <= 255) by {
                assert(t.constants[i] == s.constants[i]);
            }
        }
    }
    assert forall|p: usize| #[trigger] is_place(s, p) implies is_place(t, p) by {}
    assert forall|i: int| 0 <= i < t.loop_stack.len() implies loop_sound(
        t,
        #[trigger] t.loop_stack[i],
    ) by {
        assert(loop_sound(s, s.loop_stack[i]));
    }
    assert forall|i: int| 0 <= i < t.try_stack.len() implies try_sound(
        t,
        #[trigger] t.try_stack[i],
    ) by {
        assert(try_sound(s, s.try_stack[i]));
    }
    assert forall|i: int| 0 <= i < b.constants.len() implies t.constants[i]
        == #[trigger] b.constants[i] by {
        assert(s.constants[i] == b.constants[i]);
    }
}

/// The same with code that has the same places.
proof fn lemma_new_code(b: RView, s: RView, t: RView)
    requires
        grows(b, s),
        t.constants == s.constants,
        t.loop_stack == s.loop_stack,
        t.try_stack == s.try_stack,
        t.string_slots == s.string_slots,
        t.int_slots == s.int_slots,
        t.float_slots == s.float_slots,
        t.locals == s.locals,
        t.class_defs == s.class_defs,
        t.max_reg == s.max_reg,
        s.instructions.len() <= t.instructions.len(),
        is_counted(t) ==> {
            &&& is_whole(t.instructions)
            &&& constants_within(t.instructions, t.constants.len() as int)
            &&& t.max_reg < 0xffff ==> registers_within(t.instructions, t.max_reg + 1)
            &&& t.instructions.len() <= 0xffff ==> jumps_land(t.instructions)
        },
        forall|p: usize| #[trigger] is_place(s, p) ==> is_place(t, p),
    ensures
        grows(b, t),
{
    reveal(grows);
    reveal(is_sound);
    assert forall|i: int| 0 <= i < t.loop_stack.len() implies loop_sound(
        t,
        #[trigger] t.loop_stack[i],
    ) by {
        assert(loop_sound(s, s.loop_stack[i]));
    }
    assert forall|i: int| 0 <= i < t.try_stack.len() implies try_sound(
        t,
        #[trigger] t.try_stack[i],
    ) by {
        assert(try_sound(s, s.try_stack[i]));
    }
}

/// The operand of an instruction that is a target.
pub open spec fn jump_operand(op: ROp) -> Option<int> {
    match op {
        ROp::Jump => Some(0),
        ROp::JumpIfNot | ROp::JumpIfTruthy => Some(1),
        ROp::TestLtConstJump | ROp::TestLeConstJump | ROp::IncrementRegAndJump => Some(2),
        ROp::ModRegConstStrictEqConstJump => Some(3),
        _ => None,
    }
}

proof fn lemma_jump_operand(op: ROp)
    ensures
        jump_operand(op) == (match target_offset(op as u8) {
            Some(offset) => Some(offset / 2),
            None => None,
        }),
{
}

/// Whether an instruction is neither a jump nor refers to constants.
pub open spec fn is_plain(op: ROp) -> bool {
    &&& op != ROp::MakeClosure
    &&& jump_operand(op) is None
    &&& forall|k: int| !has_constant(op, k)
    &&& forall|a: int, b: int, c: int, d: int, n: int|
        a < n && b < n && c < n ==> #[trigger] registers_fit(op, a, b, c, d, n)
}

/// Whether the constants that an instruction refers to are there.
pub open spec fn constants_there(s: RView, op: ROp, operands: Seq<u16>) -> bool {
    let at = |k: int| is_constant(s, operand_at(operands, k));
    match op {
        ROp::LoadConst
        | ROp::SetProp
        | ROp::SetGlobalProp
        | ROp::TestLtConstJump
        | ROp::TestLeConstJump
        | ROp::IncrementRegAndJump
        | ROp::MakeClosure => at(1),
        ROp::GetProp | ROp::GetGlobalProp | ROp::AddRegConst | ROp::DefineAccessor => at(2),
        ROp::ModRegConstStrictEqConstJump | ROp::AddConstToRegProp => at(1) && at(2),
        ROp::AddRegPropsToRegProp => at(1) && at(3) && at(5),
        ROp::CallMethod => at(3),
        _ => true,
    }
}

/// Whether the registers that an instruction uses are counted.
pub open spec fn registers_there(s: RView, op: ROp, operands: Seq<u16>) -> bool {
    s.max_reg < 0xffff ==> registers_fit(
        op,
        operand_at(operands, 0) as int,
        operand_at(operands, 1) as int,
        operand_at(operands, 2) as int,
        operand_at(operands, 3) as int,
        s.max_reg + 1,
    )
}

/// Whether an instruction may be added to code.
pub open spec fn may_emit(s: RView, op: ROp, operands: Seq<u16>) -> bool {
    &&& op != ROp::MakeClosure
    &&& jump_operand(op) matches Some(k) ==> k < operands.len() && lands(s, operands[k])
    &&& constants_there(s, op, operands)
    &&& registers_there(s, op, operands)
}

pub broadcast proof fn step_emit_plain(b: RView, s: RView, op: ROp, operands: Seq<u16>)
    requires
        #[trigger] grows(b, s),
        is_plain(op),
        operand_at(operands, 0) <= s.max_reg,
        operand_at(operands, 1) <= s.max_reg,
        operand_at(operands, 2) <= s.max_reg,
    ensures
        grows(b, #[trigger] s.emit(op, operands)),
        s.max_reg <= s.emit(op, operands).max_reg,
{
    assert(!has_constant(op, 1) && !has_constant(op, 2) && !has_constant(op, 3));
    lemma_emitted(b, s, op, operands);
}

pub broadcast proof fn step_emit(b: RView, s: RView, op: ROp, operands: Seq<u16>)
    requires
        #[trigger] grows(b, s),
        may_emit(s, op, operands),
    ensures
        grows(b, #[trigger] s.emit(op, operands)),
        s.max_reg <= s.emit(op, operands).max_reg,
{
    lemma_emitted(b, s, op, operands);
}

proof fn lemma_emitted(b: RView, s: RView, op: ROp, operands: Seq<u16>)
    requires
        grows(b, s),
        op == ROp::MakeClosure ==> 3 <= operands.len() && (is_counted(s) ==> operands.len() <= 258
            && operands[2] == operands.len() - 3),
        jump_operand(op) matches Some(k) ==> k < operands.len() && lands(s, operands[k]),
        constants_there(s, op, operands),
        registers_there(s, op, operands),
    ensures
        grows(b, s.emit(op, operands)),
        s.emit(op, operands).max_reg == s.max_reg,
{
    reveal(RView::emit);
    let t = s.emit(op, operands);
    let tail = rencode(op, operands);
    reveal(is_place);
    law_rencode_length(op, operands);
    if is_counted(t) {
        assert(is_counted(s));
        assert(is_whole(s.instructions) && constants_within(
            s.instructions,
            s.constants.len() as int,
        )) by {
            reveal(grows);
            reveal(is_sound);
        }
        lemma_encoded_is_one(op, operands);
        lemma_append(s.instructions, tail);
        assert forall|offset: int| #[trigger] is_constant_field(tail[0], offset) implies word_at(
            tail,
            offset,
        ) < s.constants.len() by {
            lemma_encoded_constant(op, operands, offset);
            assert(has_constant(op, constant_operand(offset)));
        }
        lemma_append_constants(s.instructions, tail, s.constants.len() as int);
        if s.max_reg < 0xffff {
            assert(registers_within(s.instructions, s.max_reg + 1)) by {
                reveal(grows);
                reveal(is_sound);
            }
            lemma_encoded_registers(op, operands, s.max_reg + 1);
            lemma_append_registers(s.instructions, tail, s.max_reg + 1);
        }
        if t.instructions.len() <= 0xffff {
            assert(jumps_land(s.instructions)) by {
                reveal(grows);
                reveal(is_sound);
            }
            lemma_encoded_target(op, operands);
            lemma_jump_operand(op);
            reveal(lands);
            lemma_append_jumps(s.instructions, tail);
        }
    }
    lemma_new_code(b, s, t);
}

pub broadcast proof fn step_patch(b: RView, s: RView, pos: usize, target: usize)
    requires
        #[trigger] grows(b, s),
        is_place(s, pos),
        is_place(s, target),
    ensures
        grows(b, #[trigger] s.patch(pos, target)),
        s.max_reg <= s.patch(pos, target).max_reg,
{
    reveal(RView::patch);
    let t = s.patch(pos, target);
    reveal(is_place);
    if pos < s.instructions.len() && target_offset(s.instructions[pos as int]) is Some {
        assert(t.instructions.len() == s.instructions.len());
        if is_counted(t) {
            let n = s.constants.len() as int;
            assert(is_whole(s.instructions) && constants_within(s.instructions, n) && (
            s.instructions.len() <= 0xffff ==> jumps_land(s.instructions))) by {
                reveal(grows);
                reveal(is_sound);
            }
            lemma_patch(s.instructions, pos as int, target as u16);
            lemma_patch_constants(s.instructions, pos as int, target as u16, n);
            if s.max_reg < 0xffff {
                assert(registers_within(s.instructions, s.max_reg + 1)) by {
                    reveal(grows);
                    reveal(is_sound);
                }
                lemma_patch_registers(
                    s.instructions,
                    pos as int,
                    target as u16,
                    s.max_reg + 1,
                );
            }
        }
        lemma_new_code(b, s, t);
    } else {
        lemma_same(b, s, t);
    }
}

pub broadcast proof fn step_patch_all(
    b: RView,
    s: RView,
    positions: Seq<usize>,
    i: int,
    target: usize,
)
    requires
        #[trigger] grows(b, s),
        are_places(s, positions),
        is_place(s, target),
    ensures
        grows(b, #[trigger] s.patch_all(positions, i, target)),
        s.max_reg <= s.patch_all(positions, i, target).max_reg,
    decreases positions.len() - i,
{
    reveal(RView::patch_all);
    if 0 <= i < positions.len() {
        let t = s.patch(positions[i], target);
        lemma_grows_sound(b, s);
        step_patch(b, s, positions[i], target);
        step_patch(s, s, positions[i], target);
        assert(are_places(t, positions) && is_place(t, target)) by {
            reveal(grows);
        }
        step_patch_all(b, t, positions, i + 1, target);
    }
}

pub broadcast proof fn step_here(b: RView, s: RView)
    requires
        #[trigger] grows(b, s),
    ensures
        is_place(s, #[trigger] s.here()),
        grows(s, s),
{
    reveal(RView::here);
    reveal(grows);
    reveal(is_sound);
    reveal(is_place);
}

pub broadcast proof fn growth_is_sound(b: RView, s: RView)
    requires
        #[trigger] grows(b, s),
    ensures
        is_sound(s),
{
    reveal(grows);
}

pub broadcast proof fn place_stays(a: RView, s: RView, p: usize)
    requires
        #[trigger] grows(a, s),
        #[trigger] is_place(a, p),
    ensures
        is_place(s, p),
{
    reveal(grows);
}

pub broadcast proof fn places_stay(a: RView, s: RView, positions: Seq<usize>)
    requires
        #[trigger] grows(a, s),
        #[trigger] are_places(a, positions),
    ensures
        are_places(s, positions),
{
    reveal(grows);
}

pub broadcast proof fn constant_stays(a: RView, s: RView, idx: u16)
    requires
        #[trigger] grows(a, s),
        #[trigger] is_constant(a, idx),
    ensures
        is_constant(s, idx),
{
    reveal(grows);
}

pub broadcast proof fn constants_stay(a: RView, s: RView, list: Seq<u16>)
    requires
        #[trigger] grows(a, s),
        #[trigger] are_constants(a, list),
    ensures
        are_constants(s, list),
{
    reveal(grows);
}

/// A local is in a register.
pub broadcast proof fn local_is_counted(b: RView, s: RView, name: Seq<char>)
    requires
        #[trigger] grows(b, s),
        #[trigger] s.locals.has(name),
    ensures
        s.locals.map[name] <= s.max_reg,
{
    reveal(grows);
    reveal(is_sound);
}

pub broadcast proof fn place_lands(s: RView, p: usize)
    requires
        #[trigger] is_place(s, p),
    ensures
        lands(s, p as u16),
{
    reveal(lands);
    reveal(is_place);
}

pub broadcast proof fn placeholder_lands(b: RView, s: RView)
    requires
        #[trigger] grows(b, s),
    ensures
        lands(s, PLACEHOLDER),
{
    reveal(lands);
}

pub proof fn lemma_zero_is_place(s: RView)
    ensures
        is_place(s, 0),
{
    reveal(is_place);
}

pub broadcast proof fn step_fail(b: RView, s: RView, message: Seq<char>)
    requires
        #[trigger] grows(b, s),
    ensures
        grows(b, #[trigger] s.fail(message)),
        s.max_reg <= s.fail(message).max_reg,
{
    reveal(RView::fail);
    lemma_same(b, s, s.fail(message));
}

pub broadcast proof fn step_after_name(b: RView, s: RView)
    requires
        #[trigger] grows(b, s),
    ensures
        grows(b, #[trigger] s.after_name()),
        s.max_reg <= s.after_name().max_reg,
{
    reveal(RView::after_name);
    lemma_same(b, s, s.after_name());
}

pub broadcast proof fn step_after_cache_slot(b: RView, s: RView)
    requires
        #[trigger] grows(b, s),
    ensures
        grows(b, #[trigger] s.after_cache_slot()),
        s.max_reg <= s.after_cache_slot().max_reg,
{
    reveal(RView::after_cache_slot);
    lemma_same(b, s, s.after_cache_slot());
}

pub broadcast proof fn step_take_temp(b: RView, s: RView)
    requires
        #[trigger] grows(b, s),
    ensures
        grows(b, #[trigger] s.take_temp()),
        s.max_reg <= s.take_temp().max_reg,
        s.next_temp <= s.take_temp().max_reg,
{
    reveal(RView::take_temp);
    lemma_same(b, s, s.take_temp());
}

pub broadcast proof fn step_set_temps(b: RView, s: RView, r: u16)
    requires
        #[trigger] grows(b, s),
    ensures
        grows(b, #[trigger] s.set_temps(r)),
        s.max_reg <= s.set_temps(r).max_reg,
        s.set_temps(r).next_temp == r,
{
    reveal(RView::set_temps);
    lemma_same(b, s, s.set_temps(r));
}

pub broadcast proof fn step_free_temps(b: RView, s: RView)
    requires
        #[trigger] grows(b, s),
    ensures
        grows(b, #[trigger] s.free_temps()),
        s.max_reg <= s.free_temps().max_reg,
{
    reveal(RView::free_temps);
    lemma_same(b, s, s.free_temps());
}

// Steps that call others

pub broadcast proof fn step_copy_reg(b: RView, s: RView, dst: u16, src: u16)
    requires
        #[trigger] grows(b, s),
        dst <= s.max_reg,
        src <= s.max_reg,
    ensures
        grows(b, #[trigger] s.copy_reg(dst, src)),
        s.max_reg <= s.copy_reg(dst, src).max_reg,
{
    broadcast use {step_emit};

    reveal(RView::copy_reg);
}

pub broadcast proof fn step_add_constant(b: RView, s: RView, obj: ObjectView)
    requires
        #[trigger] grows(b, s),
        object_all(obj, laid_out()),
    ensures
        grows(b, (#[trigger] s.add_constant(obj)).0),
        s.max_reg <= s.add_constant(obj).0.max_reg,
        is_constant(s.add_constant(obj).0, s.add_constant(obj).1),
        grows(s.add_constant(obj).0, s.add_constant(obj).0),
{
    reveal(RView::add_constant);
    let t = s.add_constant(obj).0;
    assert(are_laid_out(s.constants) && slots_sound(s)) by {
        reveal(grows);
        reveal(is_sound);
    }
    lemma_more_constants(b, s, t);
    lemma_grows_sound(b, t);
}

pub broadcast proof fn step_add_string(b: RView, s: RView, text: Seq<char>)
    requires
        #[trigger] grows(b, s),
    ensures
        grows(b, (#[trigger] s.add_string(text)).0),
        s.max_reg <= s.add_string(text).0.max_reg,
        is_constant(s.add_string(text).0, s.add_string(text).1),
        grows(s.add_string(text).0, s.add_string(text).0),
{
    reveal(RView::add_string);
    reveal(RView::add_constant);
    let (t, idx) = s.add_string(text);
    assert(are_laid_out(s.constants) && slots_sound(s)) by {
        reveal(grows);
        reveal(is_sound);
    }
    if t == s {
        lemma_grows_sound(b, s);
        if !s.string_slots.dom().contains(text) {
            assert(t.constants.len() == s.constants.len() + 1);
        }
    } else {
        lemma_more_constants(b, s, t);
        lemma_grows_sound(b, t);
    }
}

pub broadcast proof fn step_add_int(b: RView, s: RView, v: i64)
    requires
        #[trigger] grows(b, s),
    ensures
        grows(b, (#[trigger] s.add_int(v)).0),
        s.max_reg <= s.add_int(v).0.max_reg,
        is_constant(s.add_int(v).0, s.add_int(v).1),
        grows(s.add_int(v).0, s.add_int(v).0),
{
    reveal(RView::add_int);
    reveal(RView::add_constant);
    let (t, idx) = s.add_int(v);
    assert(are_laid_out(s.constants) && slots_sound(s)) by {
        reveal(grows);
        reveal(is_sound);
    }
    if t == s {
        lemma_grows_sound(b, s);
        if !s.int_slots.dom().contains((v as u64)) {
            assert(t.constants.len() == s.constants.len() + 1);
        }
    } else {
        lemma_more_constants(b, s, t);
        lemma_grows_sound(b, t);
    }
}

pub broadcast proof fn step_add_float(b: RView, s: RView, bits: u64)
    requires
        #[trigger] grows(b, s),
    ensures
        grows(b, (#[trigger] s.add_float(bits)).0),
        s.max_reg <= s.add_float(bits).0.max_reg,
        is_constant(s.add_float(bits).0, s.add_float(bits).1),
        grows(s.add_float(bits).0, s.add_float(bits).0),
{
    reveal(RView::add_float);
    reveal(RView::add_constant);
    let (t, idx) = s.add_float(bits);
    assert(are_laid_out(s.constants) && slots_sound(s)) by {
        reveal(grows);
        reveal(is_sound);
    }
    if t == s {
        lemma_grows_sound(b, s);
        if !s.float_slots.dom().contains(bits) {
            assert(t.constants.len() == s.constants.len() + 1);
        }
    } else {
        lemma_more_constants(b, s, t);
        lemma_grows_sound(b, t);
    }
}

pub broadcast proof fn step_load_const(b: RView, s: RView, dst: u16, idx: u16)
    requires
        #[trigger] grows(b, s),
        is_constant(s, idx),
        dst <= s.max_reg,
    ensures
        grows(b, #[trigger] s.load_const(dst, idx)),
        s.max_reg <= s.load_const(dst, idx).max_reg,
{
    broadcast use {step_emit};

    reveal(RView::load_const);
}

pub broadcast proof fn step_load_object(b: RView, s: RView, dst: u16, obj: ObjectView)
    requires
        #[trigger] grows(b, s),
        object_all(obj, laid_out()),
        dst <= s.max_reg,
    ensures
        grows(b, #[trigger] s.load_object(dst, obj)),
        s.max_reg <= s.load_object(dst, obj).max_reg,
{
    broadcast use {step_add_constant, step_load_const};

    reveal(RView::load_object);
}

pub broadcast proof fn step_load_int(b: RView, s: RView, dst: u16, v: i64)
    requires
        #[trigger] grows(b, s),
        dst <= s.max_reg,
    ensures
        grows(b, #[trigger] s.load_int(dst, v)),
        s.max_reg <= s.load_int(dst, v).max_reg,
{
    broadcast use {step_add_int, step_load_const};

    reveal(RView::load_int);
}

pub broadcast proof fn step_load_float(b: RView, s: RView, dst: u16, bits: u64)
    requires
        #[trigger] grows(b, s),
        dst <= s.max_reg,
    ensures
        grows(b, #[trigger] s.load_float(dst, bits)),
        s.max_reg <= s.load_float(dst, bits).max_reg,
{
    broadcast use {step_add_float, step_load_const};

    reveal(RView::load_float);
}

pub broadcast proof fn step_load_string(b: RView, s: RView, dst: u16, text: Seq<char>)
    requires
        #[trigger] grows(b, s),
        dst <= s.max_reg,
    ensures
        grows(b, #[trigger] s.load_string(dst, text)),
        s.max_reg <= s.load_string(dst, text).max_reg,
{
    broadcast use {step_add_string, step_load_const};

    reveal(RView::load_string);
}

pub broadcast proof fn step_load_function(b: RView, s: RView, dst: u16, f: FunctionView)
    requires
        #[trigger] grows(b, s),
        is_laid_out(f),
        dst <= s.max_reg,
    ensures
        grows(b, #[trigger] s.load_function(dst, f)),
        s.max_reg <= s.load_function(dst, f).max_reg,
{
    broadcast use {step_add_constant, step_load_const};

    reveal(RView::load_function);
    let obj = ObjectView::Function(f);
    let (t, idx) = s.add_constant(obj);
    if f.closure_captures.len() > 0 {
        let operands = seq![dst, idx, f.closure_captures.len() as u16] + f.closure_captures;
        assert(is_counted(t) ==> f.closure_captures.len() <= 255) by {
            reveal(RView::add_constant);
            assert(t.constants.last() == obj);
        }
        lemma_emitted(b, t, ROp::MakeClosure, operands);
    }
}

pub broadcast proof fn step_global_slot(b: RView, s: RView, name: Seq<char>)
    requires
        #[trigger] grows(b, s),
    ensures
        grows(b, (#[trigger] s.global_slot(name)).0),
        s.max_reg <= s.global_slot(name).0.max_reg,
{
    reveal(RView::global_slot);
    reveal(RView::fail);
    lemma_same(b, s, s.global_slot(name).0);
}

pub broadcast proof fn step_local_reg(b: RView, s: RView, name: Seq<char>)
    requires
        #[trigger] grows(b, s),
    ensures
        grows(b, (#[trigger] s.local_reg(name)).0),
        s.max_reg <= s.local_reg(name).0.max_reg,
        s.local_reg(name).1 <= s.local_reg(name).0.max_reg,
{
    reveal(RView::local_reg);
    let t = s.local_reg(name).0;
    assert(names_fit(s.locals, s.max_reg)) by {
        reveal(grows);
        reveal(is_sound);
    }
    if s.locals.has(name) {
        assert(s.locals.map[name] <= s.max_reg);
    } else {
        assert(names_fit(s.locals, t.max_reg));
        lemma_name_set(s.locals, name, s.local_reg(name).1, t.max_reg);
    }
    lemma_same(b, s, s.local_reg(name).0);
}

pub broadcast proof fn step_binding_slot(b: RView, s: RView, name: Seq<char>)
    requires
        #[trigger] grows(b, s),
    ensures
        grows(b, (#[trigger] s.binding_slot(name)).0),
        s.max_reg <= s.binding_slot(name).0.max_reg,
        s.binding_slot(name).1 matches Slot::Local(r) ==> r <= s.binding_slot(name).0.max_reg,
{
    broadcast use {step_local_reg, step_global_slot};

    reveal(RView::binding_slot);
}

pub broadcast proof fn step_mirror(b: RView, s: RView, name: Seq<char>, reg: u16)
    requires
        #[trigger] grows(b, s),
        reg <= s.max_reg,
    ensures
        grows(b, #[trigger] s.mirror(name, reg)),
        s.max_reg <= s.mirror(name, reg).max_reg,
{
    broadcast use {step_emit};

    reveal(RView::mirror);
}

pub broadcast proof fn step_mirror_captured(b: RView, s: RView, name: Seq<char>, reg: u16)
    requires
        #[trigger] grows(b, s),
        reg <= s.max_reg,
    ensures
        grows(b, #[trigger] s.mirror_captured(name, reg)),
        s.max_reg <= s.mirror_captured(name, reg).max_reg,
{
    broadcast use {step_emit, step_global_slot};

    reveal(RView::mirror_captured);
}

pub broadcast proof fn step_store_global(b: RView, s: RView, name: Seq<char>, src: u16)
    requires
        #[trigger] grows(b, s),
        src <= s.max_reg,
    ensures
        grows(b, #[trigger] s.store_global(name, src)),
        s.max_reg <= s.store_global(name, src).max_reg,
{
    broadcast use {step_emit, step_global_slot};

    reveal(RView::store_global);
}

pub broadcast proof fn step_store_binding(b: RView, s: RView, name: Seq<char>, src: u16)
    requires
        #[trigger] grows(b, s),
        src <= s.max_reg,
    ensures
        grows(b, #[trigger] s.store_binding(name, src)),
        s.max_reg <= s.store_binding(name, src).max_reg,
{
    broadcast use {step_local_reg, step_copy_reg, step_mirror_captured, step_store_global};

    reveal(RView::store_binding);
}

pub broadcast proof fn step_store_name(b: RView, s: RView, name: Seq<char>, src: u16)
    requires
        #[trigger] grows(b, s),
        src <= s.max_reg,
    ensures
        grows(b, #[trigger] s.store_name(name, src)),
        s.max_reg <= s.store_name(name, src).max_reg,
{
    broadcast use {step_local_reg, step_copy_reg, step_mirror, step_store_global};

    reveal(RView::store_name);
}

pub broadcast proof fn step_store_target(b: RView, s: RView, name: Seq<char>, src: u16)
    requires
        #[trigger] grows(b, s),
        src <= s.max_reg,
    ensures
        grows(b, #[trigger] s.store_target(name, src)),
        s.max_reg <= s.store_target(name, src).max_reg,
{
    broadcast use {step_fail, step_store_name};

    reveal(RView::store_target);
}

pub broadcast proof fn step_load_name(b: RView, s: RView, name: Seq<char>, dst: u16)
    requires
        #[trigger] grows(b, s),
        dst <= s.max_reg,
    ensures
        grows(b, #[trigger] s.load_name(name, dst)),
        s.max_reg <= s.load_name(name, dst).max_reg,
{
    broadcast use {
        step_copy_reg,
        step_emit,
        step_load_object,
        step_global_slot,
        step_fail,
        local_is_counted,
    };

    reveal(RView::load_name);
    if let Some(m) = global_member(name) {
        let (realm, obj) = member_object(s.realm, m);
        assert(!(obj is Function) && !(obj is Class));
        lemma_same(b, s, RView { realm, ..s });
    }
}

pub broadcast proof fn step_load_name_new(b: RView, s: RView, name: Seq<char>)
    requires
        #[trigger] grows(b, s),
    ensures
        grows(b, #[trigger] s.load_name_new(name)),
        s.max_reg <= s.load_name_new(name).max_reg,
        s.next_temp <= s.load_name_new(name).max_reg,
{
    broadcast use {step_take_temp, step_load_name};

    reveal(RView::load_name_new);
}

pub broadcast proof fn step_get_prop(b: RView, s: RView, dst: u16, obj: u16, prop: Seq<char>)
    requires
        #[trigger] grows(b, s),
        dst <= s.max_reg,
        obj <= s.max_reg,
    ensures
        grows(b, #[trigger] s.get_prop(dst, obj, prop)),
        s.max_reg <= s.get_prop(dst, obj, prop).max_reg,
{
    broadcast use {step_add_string, step_after_cache_slot, step_emit, constant_stays};

    reveal(RView::get_prop);
}

pub broadcast proof fn step_get_global_prop(b: RView, s: RView, dst: u16, global: u16, prop: Seq<char>)
    requires
        #[trigger] grows(b, s),
        dst <= s.max_reg,
    ensures
        grows(b, #[trigger] s.get_global_prop(dst, global, prop)),
        s.max_reg <= s.get_global_prop(dst, global, prop).max_reg,
{
    broadcast use {step_add_string, step_after_cache_slot, step_emit, constant_stays};

    reveal(RView::get_global_prop);
}

pub broadcast proof fn step_get_name_prop(b: RView, s: RView, dst: u16, name: Seq<char>, prop: Seq<char>)
    requires
        #[trigger] grows(b, s),
        dst <= s.max_reg,
    ensures
        grows(b, #[trigger] s.get_name_prop(dst, name, prop)),
        s.max_reg <= s.get_name_prop(dst, name, prop).max_reg,
{
    broadcast use {step_get_prop, step_get_global_prop, step_load_name_new, local_is_counted};

    reveal(RView::get_name_prop);
}

pub broadcast proof fn step_reload_from(b: RView, s: RView, i: int)
    requires
        #[trigger] grows(b, s),
    ensures
        grows(b, #[trigger] s.reload_from(i)),
        s.max_reg <= s.reload_from(i).max_reg,
    decreases s.locals.order.len() - i,
{
    broadcast use step_emit;

    reveal(RView::reload_from);
    if 0 <= i < s.locals.order.len() {
        let name = s.locals.order[i];
        assert(s.locals.map[name] <= s.max_reg) by {
            reveal(grows);
            reveal(is_sound);
            assert(s.locals.has(name));
        }
        if s.globals.has(name) {
            reveal(RView::emit);
            let operands = seq![s.locals.map[name], s.globals.map[name]];
            step_emit(b, s, ROp::GetGlobal, operands);
            step_reload_from(b, s.emit(ROp::GetGlobal, operands), i + 1);
        } else {
            step_reload_from(b, s, i + 1);
        }
    }
}

pub broadcast proof fn step_finish_call(b: RView, s: RView, call_dst: u16, dst: u16)
    requires
        #[trigger] grows(b, s),
        call_dst <= s.max_reg,
        dst <= s.max_reg,
    ensures
        grows(b, #[trigger] s.finish_call(call_dst, dst)),
        s.max_reg <= s.finish_call(call_dst, dst).max_reg,
{
    broadcast use {step_reload_from, step_copy_reg};

    reveal(RView::finish_call);
}

pub broadcast proof fn step_call_dst(b: RView, s: RView, dst: u16)
    requires
        #[trigger] grows(b, s),
        dst <= s.max_reg,
    ensures
        grows(b, (#[trigger] s.call_dst(dst)).0),
        s.max_reg <= s.call_dst(dst).0.max_reg,
        s.call_dst(dst).1 <= s.call_dst(dst).0.max_reg,
{
    broadcast use {step_take_temp};

    reveal(RView::call_dst);
}

pub broadcast proof fn step_declare_const(b: RView, s: RView, name: Seq<char>)
    requires
        #[trigger] grows(b, s),
    ensures
        grows(b, #[trigger] s.declare_const(name)),
        s.max_reg <= s.declare_const(name).max_reg,
{
    reveal(RView::declare_const);
    lemma_same(b, s, s.declare_const(name));
}

pub broadcast proof fn step_declare_consts(b: RView, s: RView, names: Seq<Seq<char>>)
    requires
        #[trigger] grows(b, s),
    ensures
        grows(b, #[trigger] s.declare_consts(names)),
        s.max_reg <= s.declare_consts(names).max_reg,
{
    reveal(RView::declare_consts);
    lemma_same(b, s, s.declare_consts(names));
}

pub broadcast proof fn step_declare_locals(b: RView, s: RView, names: Seq<Seq<char>>, i: int)
    requires
        #[trigger] grows(b, s),
    ensures
        grows(b, #[trigger] s.declare_locals(names, i)),
        s.max_reg <= s.declare_locals(names, i).max_reg,
    decreases names.len() - i,
{
    broadcast use {step_local_reg};

    reveal(RView::declare_locals);
    if 0 <= i < names.len() {
        step_declare_locals(b, s.local_reg(names[i]).0, names, i + 1);
    }
}

pub broadcast proof fn step_declare_all(b: RView, s: RView, names: Seq<Seq<char>>, i: int)
    requires
        #[trigger] grows(b, s),
    ensures
        grows(b, #[trigger] s.declare_all(names, i)),
        s.max_reg <= s.declare_all(names, i).max_reg,
    decreases names.len() - i,
{
    broadcast use {step_binding_slot};

    reveal(RView::declare_all);
    if 0 <= i < names.len() {
        step_declare_all(b, s.binding_slot(names[i]).0, names, i + 1);
    }
}

pub broadcast proof fn step_define_class(b: RView, s: RView, name: Seq<char>, class: ClassView)
    requires
        #[trigger] grows(b, s),
        class_all(class, laid_out()),
    ensures
        grows(b, #[trigger] s.define_class(name, class)),
        s.max_reg <= s.define_class(name, class).max_reg,
{
    reveal(RView::define_class);
    assert(classes_all(s.class_defs, laid_out())) by {
        reveal(grows);
        reveal(is_sound);
    }
    lemma_class_filed(s.class_defs, name, class, laid_out());
    lemma_same(b, s, s.define_class(name, class));
}

pub broadcast proof fn step_declare_class(b: RView, s: RView, name: Seq<char>)
    requires
        #[trigger] grows(b, s),
    ensures
        grows(b, #[trigger] s.declare_class(name)),
        s.max_reg <= s.declare_class(name).max_reg,
{
    broadcast use {step_local_reg, step_global_slot};

    reveal(RView::declare_class);
}

pub broadcast proof fn step_mirror_parameters(b: RView, s: RView, parameters: Seq<Seq<char>>, i: int)
    requires
        #[trigger] grows(b, s),
        parameters.len() <= s.max_reg + 1,
    ensures
        grows(b, #[trigger] s.mirror_parameters(parameters, i)),
        s.max_reg <= s.mirror_parameters(parameters, i).max_reg,
    decreases parameters.len() - i,
{
    broadcast use {step_global_slot, step_emit};

    reveal(RView::mirror_parameters);
    if 0 <= i < parameters.len() {
        if s.needs_global(parameters[i]) {
            let (t, g) = s.global_slot(parameters[i]);
            let u = t.emit(ROp::SetGlobal, seq![g, i as u16]);
            let v = RView {
                shadow_slots: if s.globals.has(parameters[i]) {
                    u.shadow_slots
                } else {
                    u.shadow_slots.insert(g)
                },
                ..u
            };
            lemma_same(b, u, v);
            step_mirror_parameters(b, v, parameters, i + 1);
        } else {
            step_mirror_parameters(b, s, parameters, i + 1);
        }
    }
}

pub broadcast proof fn step_enter_block(
    b: RView,
    s: RView,
    stmts: Seq<Statement>,
    i: int,
    hidden: Seq<(Seq<char>, Option<u16>)>,
)
    requires
        #[trigger] grows(b, s),
        hidden_fit(hidden, s.max_reg),
    ensures
        grows(b, (#[trigger] s.enter_block(stmts, i, hidden)).0),
        s.max_reg <= s.enter_block(stmts, i, hidden).0.max_reg,
        hidden_fit(
            s.enter_block(stmts, i, hidden).1,
            s.enter_block(stmts, i, hidden).0.max_reg,
        ),
    decreases stmts.len() - i,
{
    reveal(RView::enter_block);
    assert(names_fit(s.locals, s.max_reg)) by {
        reveal(grows);
        reveal(is_sound);
    }
    if 0 <= i < stmts.len() {
        step_enter_block(b, s, stmts, i + 1, hidden);
        if let Statement::Let { name, .. } = stmts[i] {
            let t = RView { locals: s.locals.unset(name@), ..s };
            lemma_name_unset(s.locals, name@, s.max_reg);
            lemma_same(b, s, t);
            step_enter_block(
                b,
                t,
                stmts,
                i + 1,
                hidden.push((name@, s.locals.get(name@))),
            );
        }
    }
}

pub broadcast proof fn step_exit_block(
    b: RView,
    s: RView,
    hidden: Seq<(Seq<char>, Option<u16>)>,
    i: int,
)
    requires
        #[trigger] grows(b, s),
        hidden_fit(hidden, s.max_reg),
    ensures
        grows(b, #[trigger] s.exit_block(hidden, i)),
        s.max_reg <= s.exit_block(hidden, i).max_reg,
    decreases hidden.len() - i,
{
    reveal(RView::exit_block);
    if 0 <= i < hidden.len() {
        let (name, old) = hidden[i];
        assert(names_fit(s.locals, s.max_reg)) by {
            reveal(grows);
            reveal(is_sound);
        }
        match old {
            Some(r) => lemma_name_set(s.locals, name, r, s.max_reg),
            None => lemma_name_unset(s.locals, name, s.max_reg),
        }
        let t = RView {
            locals: match old {
                Some(r) => s.locals.set(name, r),
                None => s.locals.unset(name),
            },
            ..s
        };
        lemma_same(b, s, t);
        step_exit_block(b, t, hidden, i + 1);
    }
}

// Loops

/// A state with another list of loops.
proof fn lemma_loops(b: RView, s: RView, loops: Seq<LoopView>)
    requires
        grows(b, s),
        forall|i: int| 0 <= i < loops.len() ==> loop_sound(s, #[trigger] loops[i]),
    ensures
        grows(b, (RView { loop_stack: loops, ..s })),
{
    let t = RView { loop_stack: loops, ..s };
    reveal(grows);
    reveal(is_sound);
    reveal(is_place);
    assert forall|p: usize| is_place(s, p) == #[trigger] is_place(t, p) by {}
    assert forall|i: int| 0 <= i < t.loop_stack.len() implies loop_sound(
        t,
        #[trigger] t.loop_stack[i],
    ) by {
        assert(loop_sound(s, loops[i]));
    }
    assert forall|i: int| 0 <= i < t.try_stack.len() implies try_sound(
        t,
        #[trigger] t.try_stack[i],
    ) by {
        assert(try_sound(s, s.try_stack[i]));
    }
}

proof fn lemma_loop_sound(b: RView, s: RView)
    requires
        grows(b, s),
    ensures
        forall|i: int| 0 <= i < s.loop_stack.len() ==> loop_sound(s, #[trigger] s.loop_stack[i]),
{
    reveal(grows);
    reveal(is_sound);
}

pub broadcast proof fn step_open_loop(
    b: RView,
    s: RView,
    label: Option<Seq<char>>,
    continue_target: usize,
)
    requires
        #[trigger] grows(b, s),
        is_place(s, continue_target),
    ensures
        grows(b, #[trigger] s.open_loop(label, continue_target)),
        s.max_reg <= s.open_loop(label, continue_target).max_reg,
{
    reveal(RView::open_loop);
    lemma_loop_sound(b, s);
    let t = s.open_loop(label, continue_target);
    lemma_loops(b, s, t.loop_stack);
}

pub broadcast proof fn step_continue_here(b: RView, s: RView)
    requires
        #[trigger] grows(b, s),
    ensures
        grows(b, #[trigger] s.continue_here()),
        s.max_reg <= s.continue_here().max_reg,
{
    reveal(RView::continue_here);
    lemma_loop_sound(b, s);
    step_here(b, s);
    let t = s.continue_here();
    if s.loop_stack.len() > 0 {
        assert(loop_sound(s, s.loop_stack[s.loop_stack.len() - 1]));
    }
    lemma_loops(b, s, t.loop_stack);
}

proof fn lemma_drop_loop(b: RView, s: RView)
    requires
        grows(b, s),
        s.loop_stack.len() > 0,
    ensures
        ({
            let t = RView { loop_stack: s.loop_stack.drop_last(), ..s };
            let ctx = s.loop_stack.last();
            &&& grows(b, t)
            &&& grows(s, t)
            &&& grows(t, t)
            &&& are_places(t, ctx.break_positions)
            &&& are_places(t, ctx.continue_positions)
            &&& is_place(t, ctx.continue_target)
        }),
{
    let t = RView { loop_stack: s.loop_stack.drop_last(), ..s };
    lemma_loop_sound(b, s);
    lemma_loops(b, s, t.loop_stack);
    lemma_grows_sound(b, s);
    lemma_loops(s, s, t.loop_stack);
    lemma_grows_sound(b, t);
    assert(loop_sound(s, s.loop_stack[s.loop_stack.len() - 1]));
    reveal(grows);
}

pub broadcast proof fn step_close_loop(b: RView, s: RView, end: usize)
    requires
        #[trigger] grows(b, s),
        is_place(s, end),
    ensures
        grows(b, #[trigger] s.close_loop(end)),
        s.max_reg <= s.close_loop(end).max_reg,
{
    broadcast use {step_patch_all, place_stays, places_stay};

    reveal(RView::close_loop);
    if s.loop_stack.len() > 0 {
        lemma_drop_loop(b, s);
        let t = RView { loop_stack: s.loop_stack.drop_last(), ..s };
        assert(is_place(t, end));
        let u = t.patch_all(s.loop_stack.last().break_positions, 0, end);
        assert(grows(t, u));
    }
}

pub broadcast proof fn step_close_switch(b: RView, s: RView, end: usize)
    requires
        #[trigger] grows(b, s),
        is_place(s, end),
    ensures
        grows(b, #[trigger] s.close_switch(end)),
        s.max_reg <= s.close_switch(end).max_reg,
{
    broadcast use {step_patch_all, place_stays, places_stay, step_fail};

    reveal(RView::close_switch);
    if s.loop_stack.len() > 0 {
        let n = s.loop_stack.len();
        let t = RView { loop_stack: without_switch(s.loop_stack), ..s };
        lemma_loop_sound(b, s);
        assert(loop_sound(s, s.loop_stack[n - 1]));
        assert forall|i: int| 0 <= i < t.loop_stack.len() implies loop_sound(
            s,
            #[trigger] t.loop_stack[i],
        ) by {
            assert(loop_sound(s, s.loop_stack[i]));
        }
        lemma_loops(b, s, t.loop_stack);
        lemma_grows_sound(b, s);
        lemma_loops(s, s, t.loop_stack);
        lemma_grows_sound(b, t);
        assert(is_place(t, end));
        assert(are_places(t, s.loop_stack[n - 1].break_positions));
        let u = t.patch_all(s.loop_stack[n - 1].break_positions, 0, end);
        assert(grows(b, u));
    }
}

pub broadcast proof fn step_jump_from_loop(
    b: RView,
    s: RView,
    label: Option<Seq<char>>,
    is_break: bool,
)
    requires
        #[trigger] grows(b, s),
    ensures
        grows(b, #[trigger] s.jump_from_loop(label, is_break)),
        s.max_reg <= s.jump_from_loop(label, is_break).max_reg,
{
    broadcast use {step_emit, step_here, step_fail, place_stays, placeholder_lands};

    reveal(RView::jump_from_loop);
    let pos = s.here();
    let t = s.emit(ROp::Jump, seq![PLACEHOLDER]);
    assert(grows(s, t));
    assert(is_place(t, pos));
    lemma_loop_sound(b, t);
    if let Some(n) = loop_index(t.loop_stack, label, t.loop_stack.len() as int) {
        let u = s.jump_from_loop(label, is_break);
        lemma_loop_index(t.loop_stack, label, t.loop_stack.len() as int);
        assert(loop_sound(t, t.loop_stack[n]));
        lemma_loops(b, t, u.loop_stack);
    }
}

proof fn lemma_loop_index(loops: Seq<LoopView>, label: Option<Seq<char>>, n: int)
    requires
        n <= loops.len(),
    ensures
        loop_index(loops, label, n) matches Some(i) ==> 0 <= i < n,
    decreases n,
{
    if n > 0 {
        lemma_loop_index(loops, label, n - 1);
    }
}

// Exceptions

/// A state with another list of `try` blocks.
proof fn lemma_tries(b: RView, s: RView, tries: Seq<RTryView>)
    requires
        grows(b, s),
        forall|i: int| 0 <= i < tries.len() ==> try_sound(s, #[trigger] tries[i]),
    ensures
        grows(b, (RView { try_stack: tries, ..s })),
{
    let t = RView { try_stack: tries, ..s };
    reveal(grows);
    reveal(is_sound);
    reveal(is_place);
    assert forall|p: usize| is_place(s, p) == #[trigger] is_place(t, p) by {}
    assert forall|i: int| 0 <= i < t.loop_stack.len() implies loop_sound(
        t,
        #[trigger] t.loop_stack[i],
    ) by {
        assert(loop_sound(s, s.loop_stack[i]));
    }
    assert forall|i: int| 0 <= i < t.try_stack.len() implies try_sound(
        t,
        #[trigger] t.try_stack[i],
    ) by {
        assert(try_sound(s, tries[i]));
    }
}

proof fn lemma_try_sound(b: RView, s: RView)
    requires
        grows(b, s),
    ensures
        forall|i: int| 0 <= i < s.try_stack.len() ==> try_sound(s, #[trigger] s.try_stack[i]),
{
    reveal(grows);
    reveal(is_sound);
}

pub broadcast proof fn step_open_try(
    b: RView,
    s: RView,
    exception: Seq<char>,
    deferred_return: Option<(Seq<char>, Seq<char>)>,
)
    requires
        #[trigger] grows(b, s),
    ensures
        grows(b, #[trigger] s.open_try(exception, deferred_return)),
        s.max_reg <= s.open_try(exception, deferred_return).max_reg,
{
    reveal(RView::open_try);
    lemma_try_sound(b, s);
    lemma_tries(b, s, s.open_try(exception, deferred_return).try_stack);
}

proof fn lemma_drop_try(b: RView, s: RView)
    requires
        grows(b, s),
        s.try_stack.len() > 0,
    ensures
        ({
            let t = RView { try_stack: s.try_stack.drop_last(), ..s };
            let ctx = s.try_stack.last();
            &&& grows(b, t)
            &&& grows(s, t)
            &&& grows(t, t)
            &&& are_places(t, ctx.throw_jumps)
            &&& are_places(t, ctx.return_jumps)
        }),
{
    let t = RView { try_stack: s.try_stack.drop_last(), ..s };
    lemma_try_sound(b, s);
    lemma_tries(b, s, t.try_stack);
    lemma_grows_sound(b, s);
    lemma_tries(s, s, t.try_stack);
    lemma_grows_sound(b, t);
    assert(try_sound(s, s.try_stack[s.try_stack.len() - 1]));
    reveal(grows);
}

pub broadcast proof fn step_close_try(b: RView, s: RView)
    requires
        #[trigger] grows(b, s),
    ensures
        grows(b, (#[trigger] s.close_try()).0),
        s.max_reg <= s.close_try().0.max_reg,
        are_places(s.close_try().0, s.close_try().1),
        grows(s.close_try().0, s.close_try().0),
{
    broadcast use {step_patch_all, step_here, place_stays, places_stay, step_fail};

    reveal(RView::close_try);
    if s.try_stack.len() > 0 {
        lemma_drop_try(b, s);
        let t = RView { try_stack: s.try_stack.drop_last(), ..s };
        assert(is_place(t, s.here()));
        let u = t.patch_all(s.try_stack.last().throw_jumps, 0, s.here());
        assert(grows(t, u));
        lemma_grows_sound(b, u);
    } else {
        lemma_grows_sound(b, s.close_try().0);
    }
}

pub broadcast proof fn step_throw_to_handler(b: RView, s: RView, src: u16)
    requires
        #[trigger] grows(b, s),
        src <= s.max_reg,
    ensures
        grows(b, #[trigger] s.throw_to_handler(src)),
        s.max_reg <= s.throw_to_handler(src).max_reg,
{
    broadcast use {
        step_after_name,
        step_store_name,
        step_emit,
        step_here,
        place_stays,
        placeholder_lands,
    };

    reveal(RView::throw_to_handler);
    let n = s.try_stack.len() - 1;
    let (exception, s1) = if n >= 0 {
        (s.try_stack[n].exception_temp, s)
    } else {
        (s.hidden("exc_fallback"@), s.after_name())
    };
    let s2 = s1.store_name(exception, src);
    let jump = s2.here();
    let s3 = s2.emit(ROp::Jump, seq![PLACEHOLDER]);
    assert(grows(s2, s3));
    assert(is_place(s3, jump));
    lemma_try_sound(b, s3);
    if 0 <= n < s3.try_stack.len() {
        assert(try_sound(s3, s3.try_stack[n]));
        lemma_tries(b, s3, s.throw_to_handler(src).try_stack);
    }
}

proof fn lemma_deferring(stack: Seq<RTryView>, n: int)
    requires
        n <= stack.len(),
    ensures
        deferring(stack, n) matches Some(i) ==> 0 <= i < n,
    decreases n,
{
    if n > 0 {
        lemma_deferring(stack, n - 1);
    }
}

pub broadcast proof fn step_defer_return(
    b: RView,
    s: RView,
    value: Seq<char>,
    flag: Seq<char>,
    src: u16,
)
    requires
        #[trigger] grows(b, s),
        src <= s.max_reg,
    ensures
        grows(b, #[trigger] s.defer_return(value, flag, src)),
        s.max_reg <= s.defer_return(value, flag, src).max_reg,
{
    broadcast use {
        step_store_name,
        step_take_temp,
        step_emit,
        step_here,
        place_stays,
        placeholder_lands,
    };

    reveal(RView::defer_return);
    let s1 = s.store_name(value, src);
    let set = s1.next_temp;
    let s2 = s1.take_temp().emit(ROp::LoadTrue, seq![set]).store_name(flag, set);
    let jump = s2.here();
    let s3 = s2.emit(ROp::Jump, seq![PLACEHOLDER]);
    assert(grows(s2, s3));
    assert(is_place(s3, jump));
    lemma_try_sound(b, s3);
    let count = s3.try_stack.len() as int;
    lemma_deferring(s3.try_stack, count);
    if let Some(n) = deferring(s3.try_stack, count) {
        assert(try_sound(s3, s3.try_stack[n]));
        lemma_tries(b, s3, s.defer_return(value, flag, src).try_stack);
    }
}

// Functions

pub broadcast proof fn step_finish_function(b: RView, s: RView, last: Option<u16>)
    requires
        #[trigger] grows(b, s),
        last_fits(last, s.max_reg),
    ensures
        grows(b, #[trigger] s.finish_function(last)),
        s.max_reg <= s.finish_function(last).max_reg,
{
    broadcast use {step_emit};

    reveal(RView::finish_function);
}

pub broadcast proof fn step_after_function(b: RView, s: RView, inner: RView)
    requires
        #[trigger] grows(b, s),
    ensures
        grows(b, #[trigger] s.after_function(inner)),
        s.max_reg <= s.after_function(inner).max_reg,
{
    reveal(RView::after_function);
    lemma_same(b, s, s.after_function(inner));
}

pub broadcast proof fn step_function_scope(
    s: RView,
    parameters: Seq<Seq<char>>,
    captured: Set<Seq<char>>,
)
    requires
        parameters.len() <= 0xffff,
    ensures
        ({
            let t = #[trigger] s.function_scope(parameters, captured);
            grows(t, t) && parameters.len() <= t.max_reg + 1
        }),
{
    reveal(RView::function_scope);
    let t = s.function_scope(parameters, captured);
    lemma_parameters_fit(Names::empty(), parameters, 0, t.max_reg);
    reveal(is_sound);
    reveal(grows);
}

/// A function is laid out if the state that holds its code is sound.
pub broadcast proof fn step_function(
    b: RView,
    inner: RView,
    s: RView,
    num_parameters: usize,
    rest: Option<usize>,
    takes_this: bool,
    is_async: bool,
    is_generator: bool,
)
    requires
        #[trigger] grows(b, inner),
    ensures
        is_laid_out(
            #[trigger] s.function(
                inner,
                num_parameters,
                rest,
                takes_this,
                is_async,
                is_generator,
            ),
        ),
{
    reveal(RView::function);
    reveal(grows);
    reveal(is_sound);
    lemma_laid_out(
        s.function(inner, num_parameters, rest, takes_this, is_async, is_generator),
    );
}

/// A state in which nothing has been generated is sound.
pub proof fn lemma_start_is_sound(s: RView)
    requires
        s.instructions.len() == 0,
        s.constants.len() == 0,
        s.loop_stack.len() == 0,
        s.try_stack.len() == 0,
        s.string_slots == Map::<Seq<char>, usize>::empty(),
        s.int_slots == Map::<u64, usize>::empty(),
        s.float_slots == Map::<u64, usize>::empty(),
        s.locals == Names::<u16>::empty(),
        s.class_defs == Names::<ClassView>::empty(),
    ensures
        is_sound(s),
{
    reveal(is_sound);
}

/// What a sound state says of its code.
pub proof fn lemma_sound_code(s: RView)
    requires
        is_sound(s),
    ensures
        are_laid_out(s.constants),
        is_narrow(s.constants) && s.instructions.len() <= usize::MAX ==> {
            &&& is_whole(s.instructions)
            &&& constants_within(s.instructions, s.constants.len() as int)
            &&& s.max_reg < 0xffff ==> registers_within(s.instructions, s.max_reg + 1)
            &&& s.instructions.len() <= 0xffff ==> jumps_land(s.instructions)
        },
{
    reveal(is_sound);
}

/// The classes that a state knows are in order.
pub proof fn lemma_sound_classes(s: RView)
    requires
        is_sound(s),
    ensures
        classes_all(s.class_defs, laid_out()),
{
    reveal(is_sound);
}

// Peephole patterns

pub broadcast proof fn step_numeric_constant(b: RView, s: RView, e: Expression)
    requires
        #[trigger] grows(b, s),
    ensures
        grows(b, (#[trigger] numeric_constant(s, e)).0),
        s.max_reg <= numeric_constant(s, e).0.max_reg,
        numeric_constant(s, e).1 matches Some(idx) ==> is_constant(numeric_constant(s, e).0, idx),
        grows(numeric_constant(s, e).0, numeric_constant(s, e).0),
{
    broadcast use {step_add_int, step_add_float};

    lemma_grows_sound(b, s);
    reveal(numeric_constant);
}

pub broadcast proof fn step_fuse_compare(b: RView, s: RView, e: Expression)
    requires
        #[trigger] grows(b, s),
    ensures
        grows(b, (#[trigger] rfuse_compare(s, e)).0),
        s.max_reg <= rfuse_compare(s, e).0.max_reg,
        rfuse_compare(s, e).1 matches Some(found) ==> is_constant(rfuse_compare(s, e).0, found.1)
            && found.0 <= rfuse_compare(s, e).0.max_reg,
        grows(rfuse_compare(s, e).0, rfuse_compare(s, e).0),
{
    broadcast use {step_numeric_constant, local_is_counted};

    lemma_grows_sound(b, s);
    reveal(rfuse_compare);
}

pub broadcast proof fn step_fuse_mod_eq(b: RView, s: RView, e: Expression)
    requires
        #[trigger] grows(b, s),
    ensures
        grows(b, (#[trigger] rfuse_mod_eq(s, e)).0),
        s.max_reg <= rfuse_mod_eq(s, e).0.max_reg,
        rfuse_mod_eq(s, e).1 matches Some(found) ==> is_constant(rfuse_mod_eq(s, e).0, found.1)
            && is_constant(rfuse_mod_eq(s, e).0, found.2) && found.0 <= rfuse_mod_eq(s, e).0.max_reg,
        grows(rfuse_mod_eq(s, e).0, rfuse_mod_eq(s, e).0),
{
    broadcast use {step_numeric_constant, constant_stays, local_is_counted};

    lemma_grows_sound(b, s);
    reveal(rfuse_mod_eq);
}

pub broadcast proof fn step_fuse_increment(b: RView, s: RView, e: Expression)
    requires
        #[trigger] grows(b, s),
    ensures
        grows(b, (#[trigger] rfuse_increment(s, e)).0),
        s.max_reg <= rfuse_increment(s, e).0.max_reg,
        rfuse_increment(s, e).1 matches Some(found) ==> is_constant(
            rfuse_increment(s, e).0,
            found.1,
        ) && found.0 <= rfuse_increment(s, e).0.max_reg,
        grows(rfuse_increment(s, e).0, rfuse_increment(s, e).0),
{
    broadcast use {step_numeric_constant, local_is_counted};

    lemma_grows_sound(b, s);
    reveal(rfuse_increment);
}

/// The instructions of operators are plain.
pub broadcast proof fn infix_is_plain(operator: Seq<char>)
    ensures
        (#[trigger] infix_rop(operator)) matches Some(op) ==> is_plain(op),
{
    reveal(infix_rop);
}

pub broadcast proof fn compound_is_plain(operator: Seq<char>)
    ensures
        (#[trigger] compound_rop(operator)) matches Some(op) ==> is_plain(op),
{
    reveal(compound_rop);
}

} // verus!
