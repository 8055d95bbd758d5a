//! What generating register code leaves as it is: the code and the constants that are
//! there already.
use vstd::prelude::*;

use crate::ast::{Expression, Statement};
use crate::builtins::{global_member, member_object};
use crate::codegen::{loop_index, without_switch, LoopView, PLACEHOLDER};
use crate::object::{ClassView, FunctionView, ObjectView};
use crate::rcode::ROp;
use crate::rcodegen::{
    deferring, numeric_constant, rfuse_compare, rfuse_increment, rfuse_mod_eq, RTryView, RView,
};

verus! {

/// Whether a jump that waits for its target in a loop is at `p`.
pub open spec fn waits_in_loop(l: LoopView, p: usize) -> bool {
    l.break_positions.contains(p) || l.continue_positions.contains(p)
}

/// Whether a jump that waits for its target in a `try` statement is at `p`.
pub open spec fn waits_in_try(t: RTryView, p: usize) -> bool {
    t.throw_jumps.contains(p) || t.return_jumps.contains(p)
}

/// Whether the constants that are shared are where they are looked for. Nothing is said
/// of more constants than an instruction can count.
#[verifier::opaque]
pub open spec fn is_pooled(
    constants: Seq<ObjectView>,
    strings: Map<Seq<char>, usize>,
    ints: Map<u64, usize>,
    floats: Map<u64, usize>,
) -> bool {
    constants.len() <= 0x1_0000 ==> {
        &&& forall|k: Seq<char>| #[trigger]
            strings.dom().contains(k) ==> strings[k] < constants.len()
                && constants[strings[k] as int] == ObjectView::String(k)
        &&& forall|k: u64| #[trigger]
            ints.dom().contains(k) ==> ints[k] < constants.len() && (
            constants[ints[k] as int] matches ObjectView::Integer(v) && v as u64 == k)
        &&& forall|k: u64| #[trigger]
            floats.dom().contains(k) ==> floats[k] < constants.len()
                && constants[floats[k] as int] == ObjectView::Float(k)
    }
}

/// The same of the constants of a state.
pub open spec fn is_stocked(s: RView) -> bool {
    is_pooled(s.constants, s.string_slots, s.int_slots, s.float_slots)
}

/// Whether code was added to what was there before, which is still there. Jumps that
/// wait for their target are within the code, and those that were not there before are
/// in what was added.
#[verifier::opaque]
pub open spec fn builds_on(b: RView, s: RView) -> bool {
    &&& b.instructions.len() <= s.instructions.len()
    &&& b.constants.len() <= s.constants.len()
    &&& b.err is Some ==> s.err is Some
    &&& is_stocked(b) ==> is_stocked(s)
    &&& b.loop_stack.len() <= s.loop_stack.len()
    &&& b.try_stack.len() <= s.try_stack.len()
    &&& forall|i: int| 0 <= i < b.constants.len() ==> s.constants[i] == #[trigger] b.constants[i]
    &&& s.instructions.len() <= usize::MAX ==> {
        &&& forall|i: int|
            0 <= i < b.instructions.len() ==> s.instructions[i] == #[trigger] b.instructions[i]
        &&& forall|n: int, p: usize|
            0 <= n < s.loop_stack.len() && #[trigger] waits_in_loop(s.loop_stack[n], p) ==> p
                < s.instructions.len() && (b.instructions.len() <= p || n < b.loop_stack.len()
                && waits_in_loop(b.loop_stack[n], p))
        &&& forall|n: int, p: usize|
            0 <= n < s.try_stack.len() && #[trigger] waits_in_try(s.try_stack[n], p) ==> p
                < s.instructions.len() && (b.instructions.len() <= p || n < b.try_stack.len()
                && waits_in_try(b.try_stack[n], p))
    }
}

/// Whether the jumps that wait for their target are within the code.
#[verifier::opaque]
pub open spec fn is_extendable(s: RView) -> bool {
    s.instructions.len() <= usize::MAX ==> {
        &&& forall|n: int, p: usize|
            0 <= n < s.loop_stack.len() && #[trigger] waits_in_loop(s.loop_stack[n], p) ==> p
                < s.instructions.len()
        &&& forall|n: int, p: usize|
            0 <= n < s.try_stack.len() && #[trigger] waits_in_try(s.try_stack[n], p) ==> p
                < s.instructions.len()
    }
}

/// Whether each of some positions is at least `n`.
pub open spec fn all_from(list: Seq<usize>, n: int) -> bool {
    forall|k: int| 0 <= k < list.len() ==> n <= #[trigger] list[k]
}

pub proof fn lemma_extends_self(s: RView)
    requires
        is_extendable(s),
    ensures
        builds_on(s, s),
{
    reveal(builds_on);
    reveal(is_extendable);
}

pub proof fn lemma_extends_on(a: RView, b: RView, c: RView)
    requires
        builds_on(a, b),
        builds_on(b, c),
    ensures
        builds_on(a, c),
{
    reveal(builds_on);
    assert forall|i: int| 0 <= i < a.constants.len() implies c.constants[i]
        == #[trigger] a.constants[i] by {
        assert(b.constants[i] == a.constants[i]);
    }
    if c.instructions.len() <= usize::MAX {
        assert forall|i: int| 0 <= i < a.instructions.len() implies c.instructions[i]
            == #[trigger] a.instructions[i] by {
            assert(b.instructions[i] == a.instructions[i]);
        }
    }
}

/// What was added to before is still added to.
pub proof fn lemma_extends_all(s: RView, t: RView)
    requires
        builds_on(s, t),
    ensures
        forall|a: RView| #[trigger] builds_on(a, s) ==> builds_on(a, t),
        is_extendable(t),
{
    assert forall|a: RView| #[trigger] builds_on(a, s) implies builds_on(a, t) by {
        lemma_extends_on(a, s, t);
    }
    lemma_extendable(s, t);
}

pub proof fn lemma_extendable(b: RView, s: RView)
    requires
        builds_on(b, s),
    ensures
        is_extendable(s),
{
    reveal(builds_on);
    reveal(is_extendable);
}

/// What is added to can be added to again.
pub broadcast proof fn extension_is_extendable(b: RView, s: RView)
    requires
        #[trigger] builds_on(b, s),
    ensures
        is_extendable(s),
        b.instructions.len() <= s.instructions.len(),
{
    lemma_extendable(b, s);
    reveal(builds_on);
}

/// The next position is that of the next byte.
pub broadcast proof fn ext_here(b: RView, s: RView)
    requires
        #[trigger] builds_on(b, s),
    ensures
        s.instructions.len() <= usize::MAX ==> #[trigger] s.here() == s.instructions.len(),
        b.instructions.len() <= s.instructions.len(),
{
    reveal(builds_on);
    reveal(RView::here);
}

/// Adding to code and constants alone.
proof fn lemma_plain(b: RView, s: RView, t: RView)
    requires
        builds_on(b, s),
        s.instructions.len() <= t.instructions.len(),
        forall|i: int|
            0 <= i < s.instructions.len() ==> t.instructions[i] == #[trigger] s.instructions[i],
        s.constants.len() <= t.constants.len(),
        forall|i: int| 0 <= i < s.constants.len() ==> t.constants[i] == #[trigger] s.constants[i],
        t.loop_stack == s.loop_stack,
        t.try_stack == s.try_stack,
        s.err is Some ==> t.err is Some,
        is_stocked(s) ==> is_stocked(t),
    ensures
        builds_on(b, t),
{
    reveal(builds_on);
    assert forall|i: int| 0 <= i < b.constants.len() implies t.constants[i]
        == #[trigger] b.constants[i] by {
        assert(s.constants[i] == b.constants[i]);
    }
    if t.instructions.len() <= usize::MAX {
        assert forall|i: int| 0 <= i < b.instructions.len() implies t.instructions[i]
            == #[trigger] b.instructions[i] by {
            assert(s.instructions[i] == b.instructions[i]);
        }
    }
}

pub broadcast proof fn ext_fail(b: RView, s: RView, message: Seq<char>)
    requires
        #[trigger] builds_on(b, s),
    ensures
        builds_on(b, #[trigger] s.fail(message)),
        s.instructions.len() <= s.fail(message).instructions.len(),
        s.fail(message).loop_stack.len() == s.loop_stack.len(),
        s.fail(message).try_stack.len() == s.try_stack.len(),
{
    reveal(RView::fail);
    lemma_plain(b, s, s.fail(message));
}

pub broadcast proof fn ext_emit(b: RView, s: RView, op: ROp, operands: Seq<u16>)
    requires
        #[trigger] builds_on(b, s),
    ensures
        builds_on(b, #[trigger] s.emit(op, operands)),
        s.instructions.len() <= s.emit(op, operands).instructions.len(),
        s.emit(op, operands).loop_stack.len() == s.loop_stack.len(),
        s.emit(op, operands).try_stack.len() == s.try_stack.len(),
{
    reveal(RView::emit);
    lemma_plain(b, s, s.emit(op, operands));
}

pub broadcast proof fn ext_after_name(b: RView, s: RView)
    requires
        #[trigger] builds_on(b, s),
    ensures
        builds_on(b, #[trigger] s.after_name()),
        s.instructions.len() <= s.after_name().instructions.len(),
        s.after_name().loop_stack.len() == s.loop_stack.len(),
        s.after_name().try_stack.len() == s.try_stack.len(),
{
    reveal(RView::after_name);
    lemma_plain(b, s, s.after_name());
}

pub broadcast proof fn ext_after_cache_slot(b: RView, s: RView)
    requires
        #[trigger] builds_on(b, s),
    ensures
        builds_on(b, #[trigger] s.after_cache_slot()),
        s.instructions.len() <= s.after_cache_slot().instructions.len(),
        s.after_cache_slot().loop_stack.len() == s.loop_stack.len(),
        s.after_cache_slot().try_stack.len() == s.try_stack.len(),
{
    reveal(RView::after_cache_slot);
    lemma_plain(b, s, s.after_cache_slot());
}

pub broadcast proof fn ext_take_temp(b: RView, s: RView)
    requires
        #[trigger] builds_on(b, s),
    ensures
        builds_on(b, #[trigger] s.take_temp()),
        s.instructions.len() <= s.take_temp().instructions.len(),
        s.take_temp().loop_stack.len() == s.loop_stack.len(),
        s.take_temp().try_stack.len() == s.try_stack.len(),
{
    reveal(RView::take_temp);
    lemma_plain(b, s, s.take_temp());
}

pub broadcast proof fn ext_free_temps(b: RView, s: RView)
    requires
        #[trigger] builds_on(b, s),
    ensures
        builds_on(b, #[trigger] s.free_temps()),
        s.instructions.len() <= s.free_temps().instructions.len(),
        s.free_temps().loop_stack.len() == s.loop_stack.len(),
        s.free_temps().try_stack.len() == s.try_stack.len(),
{
    reveal(RView::free_temps);
    lemma_plain(b, s, s.free_temps());
}

pub broadcast proof fn ext_set_temps(b: RView, s: RView, r: u16)
    requires
        #[trigger] builds_on(b, s),
    ensures
        builds_on(b, #[trigger] s.set_temps(r)),
        s.instructions.len() <= s.set_temps(r).instructions.len(),
        s.set_temps(r).loop_stack.len() == s.loop_stack.len(),
        s.set_temps(r).try_stack.len() == s.try_stack.len(),
{
    reveal(RView::set_temps);
    lemma_plain(b, s, s.set_temps(r));
}

pub broadcast proof fn ext_declare_const(b: RView, s: RView, name: Seq<char>)
    requires
        #[trigger] builds_on(b, s),
    ensures
        builds_on(b, #[trigger] s.declare_const(name)),
        s.instructions.len() <= s.declare_const(name).instructions.len(),
        s.declare_const(name).loop_stack.len() == s.loop_stack.len(),
        s.declare_const(name).try_stack.len() == s.try_stack.len(),
{
    reveal(RView::declare_const);
    lemma_plain(b, s, s.declare_const(name));
}

pub broadcast proof fn ext_declare_consts(b: RView, s: RView, names: Seq<Seq<char>>)
    requires
        #[trigger] builds_on(b, s),
    ensures
        builds_on(b, #[trigger] s.declare_consts(names)),
        s.instructions.len() <= s.declare_consts(names).instructions.len(),
        s.declare_consts(names).loop_stack.len() == s.loop_stack.len(),
        s.declare_consts(names).try_stack.len() == s.try_stack.len(),
{
    reveal(RView::declare_consts);
    lemma_plain(b, s, s.declare_consts(names));
}

pub broadcast proof fn ext_define_class(b: RView, s: RView, name: Seq<char>, class: ClassView)
    requires
        #[trigger] builds_on(b, s),
    ensures
        builds_on(b, #[trigger] s.define_class(name, class)),
        s.instructions.len() <= s.define_class(name, class).instructions.len(),
        s.define_class(name, class).loop_stack.len() == s.loop_stack.len(),
        s.define_class(name, class).try_stack.len() == s.try_stack.len(),
{
    reveal(RView::define_class);
    lemma_plain(b, s, s.define_class(name, class));
}

pub broadcast proof fn ext_after_function(b: RView, s: RView, inner: RView)
    requires
        #[trigger] builds_on(b, s),
    ensures
        builds_on(b, #[trigger] s.after_function(inner)),
        s.instructions.len() <= s.after_function(inner).instructions.len(),
        s.after_function(inner).loop_stack.len() == s.loop_stack.len(),
        s.after_function(inner).try_stack.len() == s.try_stack.len(),
{
    reveal(RView::after_function);
    lemma_plain(b, s, s.after_function(inner));
}

pub broadcast proof fn ext_add_constant(b: RView, s: RView, obj: ObjectView)
    requires
        #[trigger] builds_on(b, s),
    ensures
        builds_on(b, (#[trigger] s.add_constant(obj)).0),
        s.instructions.len() <= s.add_constant(obj).0.instructions.len(),
        s.add_constant(obj).0.loop_stack.len() == s.loop_stack.len(),
        s.add_constant(obj).0.try_stack.len() == s.try_stack.len(),
{
    reveal(RView::add_constant);
    reveal(is_pooled);
    lemma_plain(b, s, s.add_constant(obj).0);
}

pub broadcast proof fn ext_add_string(b: RView, s: RView, text: Seq<char>)
    requires
        #[trigger] builds_on(b, s),
    ensures
        builds_on(b, (#[trigger] s.add_string(text)).0),
        s.instructions.len() <= s.add_string(text).0.instructions.len(),
        s.add_string(text).0.loop_stack.len() == s.loop_stack.len(),
        s.add_string(text).0.try_stack.len() == s.try_stack.len(),
{
    reveal(RView::add_string);
    reveal(RView::add_constant);
    reveal(is_pooled);
    lemma_plain(b, s, s.add_string(text).0);
}

pub broadcast proof fn ext_add_int(b: RView, s: RView, v: i64)
    requires
        #[trigger] builds_on(b, s),
    ensures
        builds_on(b, (#[trigger] s.add_int(v)).0),
        s.instructions.len() <= s.add_int(v).0.instructions.len(),
        s.add_int(v).0.loop_stack.len() == s.loop_stack.len(),
        s.add_int(v).0.try_stack.len() == s.try_stack.len(),
{
    reveal(RView::add_int);
    reveal(RView::add_constant);
    reveal(is_pooled);
    lemma_plain(b, s, s.add_int(v).0);
}

pub broadcast proof fn ext_add_float(b: RView, s: RView, bits: u64)
    requires
        #[trigger] builds_on(b, s),
    ensures
        builds_on(b, (#[trigger] s.add_float(bits)).0),
        s.instructions.len() <= s.add_float(bits).0.instructions.len(),
        s.add_float(bits).0.loop_stack.len() == s.loop_stack.len(),
        s.add_float(bits).0.try_stack.len() == s.try_stack.len(),
{
    reveal(RView::add_float);
    reveal(RView::add_constant);
    reveal(is_pooled);
    lemma_plain(b, s, s.add_float(bits).0);
}

pub broadcast proof fn ext_global_slot(b: RView, s: RView, name: Seq<char>)
    requires
        #[trigger] builds_on(b, s),
    ensures
        builds_on(b, (#[trigger] s.global_slot(name)).0),
        s.instructions.len() <= s.global_slot(name).0.instructions.len(),
        s.global_slot(name).0.loop_stack.len() == s.loop_stack.len(),
        s.global_slot(name).0.try_stack.len() == s.try_stack.len(),
{
    reveal(RView::global_slot);
    reveal(RView::fail);
    lemma_plain(b, s, s.global_slot(name).0);
}

pub broadcast proof fn ext_local_reg(b: RView, s: RView, name: Seq<char>)
    requires
        #[trigger] builds_on(b, s),
    ensures
        builds_on(b, (#[trigger] s.local_reg(name)).0),
        s.instructions.len() <= s.local_reg(name).0.instructions.len(),
        s.local_reg(name).0.loop_stack.len() == s.loop_stack.len(),
        s.local_reg(name).0.try_stack.len() == s.try_stack.len(),
{
    reveal(RView::local_reg);
    lemma_plain(b, s, s.local_reg(name).0);
}

pub broadcast proof fn ext_copy_reg(b: RView, s: RView, dst: u16, src: u16)
    requires
        #[trigger] builds_on(b, s),
    ensures
        builds_on(b, #[trigger] s.copy_reg(dst, src)),
        s.instructions.len() <= s.copy_reg(dst, src).instructions.len(),
        s.copy_reg(dst, src).loop_stack.len() == s.loop_stack.len(),
        s.copy_reg(dst, src).try_stack.len() == s.try_stack.len(),
{
    broadcast use ext_emit;

    reveal(RView::copy_reg);
}

pub broadcast proof fn ext_load_const(b: RView, s: RView, dst: u16, idx: u16)
    requires
        #[trigger] builds_on(b, s),
    ensures
        builds_on(b, #[trigger] s.load_const(dst, idx)),
        s.instructions.len() <= s.load_const(dst, idx).instructions.len(),
        s.load_const(dst, idx).loop_stack.len() == s.loop_stack.len(),
        s.load_const(dst, idx).try_stack.len() == s.try_stack.len(),
{
    broadcast use ext_emit;

    reveal(RView::load_const);
}

pub broadcast proof fn ext_load_object(b: RView, s: RView, dst: u16, obj: ObjectView)
    requires
        #[trigger] builds_on(b, s),
    ensures
        builds_on(b, #[trigger] s.load_object(dst, obj)),
        s.instructions.len() <= s.load_object(dst, obj).instructions.len(),
        s.load_object(dst, obj).loop_stack.len() == s.loop_stack.len(),
        s.load_object(dst, obj).try_stack.len() == s.try_stack.len(),
{
    broadcast use {ext_add_constant, ext_load_const};

    reveal(RView::load_object);
}

pub broadcast proof fn ext_load_int(b: RView, s: RView, dst: u16, v: i64)
    requires
        #[trigger] builds_on(b, s),
    ensures
        builds_on(b, #[trigger] s.load_int(dst, v)),
        s.instructions.len() <= s.load_int(dst, v).instructions.len(),
        s.load_int(dst, v).loop_stack.len() == s.loop_stack.len(),
        s.load_int(dst, v).try_stack.len() == s.try_stack.len(),
{
    broadcast use {ext_add_int, ext_load_const};

    reveal(RView::load_int);
}

pub broadcast proof fn ext_load_float(b: RView, s: RView, dst: u16, bits: u64)
    requires
        #[trigger] builds_on(b, s),
    ensures
        builds_on(b, #[trigger] s.load_float(dst, bits)),
        s.instructions.len() <= s.load_float(dst, bits).instructions.len(),
        s.load_float(dst, bits).loop_stack.len() == s.loop_stack.len(),
        s.load_float(dst, bits).try_stack.len() == s.try_stack.len(),
{
    broadcast use {ext_add_float, ext_load_const};

    reveal(RView::load_float);
}

pub broadcast proof fn ext_load_string(b: RView, s: RView, dst: u16, text: Seq<char>)
    requires
        #[trigger] builds_on(b, s),
    ensures
        builds_on(b, #[trigger] s.load_string(dst, text)),
        s.instructions.len() <= s.load_string(dst, text).instructions.len(),
        s.load_string(dst, text).loop_stack.len() == s.loop_stack.len(),
        s.load_string(dst, text).try_stack.len() == s.try_stack.len(),
{
    broadcast use {ext_add_string, ext_load_const};

    reveal(RView::load_string);
}

pub broadcast proof fn ext_load_function(b: RView, s: RView, dst: u16, f: FunctionView)
    requires
        #[trigger] builds_on(b, s),
    ensures
        builds_on(b, #[trigger] s.load_function(dst, f)),
        s.instructions.len() <= s.load_function(dst, f).instructions.len(),
        s.load_function(dst, f).loop_stack.len() == s.loop_stack.len(),
        s.load_function(dst, f).try_stack.len() == s.try_stack.len(),
{
    broadcast use {ext_add_constant, ext_load_const, ext_emit};

    reveal(RView::load_function);
}

pub broadcast proof fn ext_binding_slot(b: RView, s: RView, name: Seq<char>)
    requires
        #[trigger] builds_on(b, s),
    ensures
        builds_on(b, (#[trigger] s.binding_slot(name)).0),
        s.instructions.len() <= s.binding_slot(name).0.instructions.len(),
        s.binding_slot(name).0.loop_stack.len() == s.loop_stack.len(),
        s.binding_slot(name).0.try_stack.len() == s.try_stack.len(),
{
    broadcast use {ext_local_reg, ext_global_slot};

    reveal(RView::binding_slot);
}

pub broadcast proof fn ext_mirror(b: RView, s: RView, name: Seq<char>, reg: u16)
    requires
        #[trigger] builds_on(b, s),
    ensures
        builds_on(b, #[trigger] s.mirror(name, reg)),
        s.instructions.len() <= s.mirror(name, reg).instructions.len(),
        s.mirror(name, reg).loop_stack.len() == s.loop_stack.len(),
        s.mirror(name, reg).try_stack.len() == s.try_stack.len(),
{
    broadcast use ext_emit;

    reveal(RView::mirror);
}

pub broadcast proof fn ext_mirror_captured(b: RView, s: RView, name: Seq<char>, reg: u16)
    requires
        #[trigger] builds_on(b, s),
    ensures
        builds_on(b, #[trigger] s.mirror_captured(name, reg)),
        s.instructions.len() <= s.mirror_captured(name, reg).instructions.len(),
        s.mirror_captured(name, reg).loop_stack.len() == s.loop_stack.len(),
        s.mirror_captured(name, reg).try_stack.len() == s.try_stack.len(),
{
    broadcast use {ext_emit, ext_global_slot};

    reveal(RView::mirror_captured);
}

pub broadcast proof fn ext_store_global(b: RView, s: RView, name: Seq<char>, src: u16)
    requires
        #[trigger] builds_on(b, s),
    ensures
        builds_on(b, #[trigger] s.store_global(name, src)),
        s.instructions.len() <= s.store_global(name, src).instructions.len(),
        s.store_global(name, src).loop_stack.len() == s.loop_stack.len(),
        s.store_global(name, src).try_stack.len() == s.try_stack.len(),
{
    broadcast use {ext_emit, ext_global_slot};

    reveal(RView::store_global);
}

pub broadcast proof fn ext_store_binding(b: RView, s: RView, name: Seq<char>, src: u16)
    requires
        #[trigger] builds_on(b, s),
    ensures
        builds_on(b, #[trigger] s.store_binding(name, src)),
        s.instructions.len() <= s.store_binding(name, src).instructions.len(),
        s.store_binding(name, src).loop_stack.len() == s.loop_stack.len(),
        s.store_binding(name, src).try_stack.len() == s.try_stack.len(),
{
    broadcast use {ext_local_reg, ext_copy_reg, ext_mirror_captured, ext_store_global};

    reveal(RView::store_binding);
}

pub broadcast proof fn ext_store_name(b: RView, s: RView, name: Seq<char>, src: u16)
    requires
        #[trigger] builds_on(b, s),
    ensures
        builds_on(b, #[trigger] s.store_name(name, src)),
        s.instructions.len() <= s.store_name(name, src).instructions.len(),
        s.store_name(name, src).loop_stack.len() == s.loop_stack.len(),
        s.store_name(name, src).try_stack.len() == s.try_stack.len(),
{
    broadcast use {ext_local_reg, ext_copy_reg, ext_mirror, ext_store_global};

    reveal(RView::store_name);
}

pub broadcast proof fn ext_store_target(b: RView, s: RView, name: Seq<char>, src: u16)
    requires
        #[trigger] builds_on(b, s),
    ensures
        builds_on(b, #[trigger] s.store_target(name, src)),
        s.instructions.len() <= s.store_target(name, src).instructions.len(),
        s.store_target(name, src).loop_stack.len() == s.loop_stack.len(),
        s.store_target(name, src).try_stack.len() == s.try_stack.len(),
{
    broadcast use {ext_fail, ext_store_name};

    reveal(RView::store_target);
}

pub broadcast proof fn ext_load_name(b: RView, s: RView, name: Seq<char>, dst: u16)
    requires
        #[trigger] builds_on(b, s),
    ensures
        builds_on(b, #[trigger] s.load_name(name, dst)),
        s.instructions.len() <= s.load_name(name, dst).instructions.len(),
        s.load_name(name, dst).loop_stack.len() == s.loop_stack.len(),
        s.load_name(name, dst).try_stack.len() == s.try_stack.len(),
{
    broadcast use {ext_copy_reg, ext_emit, ext_load_object, ext_global_slot, ext_fail};

    if let Some(m) = global_member(name) {
        let t = RView { realm: member_object(s.realm, m).0, ..s };
        lemma_plain(b, s, t);
    }
    reveal(RView::load_name);
}

pub broadcast proof fn ext_load_name_new(b: RView, s: RView, name: Seq<char>)
    requires
        #[trigger] builds_on(b, s),
    ensures
        builds_on(b, #[trigger] s.load_name_new(name)),
        s.instructions.len() <= s.load_name_new(name).instructions.len(),
        s.load_name_new(name).loop_stack.len() == s.loop_stack.len(),
        s.load_name_new(name).try_stack.len() == s.try_stack.len(),
{
    broadcast use {ext_take_temp, ext_load_name};

    reveal(RView::load_name_new);
}

pub broadcast proof fn ext_get_prop(b: RView, s: RView, dst: u16, obj: u16, prop: Seq<char>)
    requires
        #[trigger] builds_on(b, s),
    ensures
        builds_on(b, #[trigger] s.get_prop(dst, obj, prop)),
        s.instructions.len() <= s.get_prop(dst, obj, prop).instructions.len(),
        s.get_prop(dst, obj, prop).loop_stack.len() == s.loop_stack.len(),
        s.get_prop(dst, obj, prop).try_stack.len() == s.try_stack.len(),
{
    broadcast use {ext_add_string, ext_after_cache_slot, ext_emit};

    reveal(RView::get_prop);
}

pub broadcast proof fn ext_get_global_prop(
    b: RView,
    s: RView,
    dst: u16,
    global: u16,
    prop: Seq<char>,
)
    requires
        #[trigger] builds_on(b, s),
    ensures
        builds_on(b, #[trigger] s.get_global_prop(dst, global, prop)),
        s.instructions.len() <= s.get_global_prop(dst, global, prop).instructions.len(),
        s.get_global_prop(dst, global, prop).loop_stack.len() == s.loop_stack.len(),
        s.get_global_prop(dst, global, prop).try_stack.len() == s.try_stack.len(),
{
    broadcast use {ext_add_string, ext_after_cache_slot, ext_emit};

    reveal(RView::get_global_prop);
}

pub broadcast proof fn ext_get_name_prop(
    b: RView,
    s: RView,
    dst: u16,
    name: Seq<char>,
    prop: Seq<char>,
)
    requires
        #[trigger] builds_on(b, s),
    ensures
        builds_on(b, #[trigger] s.get_name_prop(dst, name, prop)),
        s.instructions.len() <= s.get_name_prop(dst, name, prop).instructions.len(),
        s.get_name_prop(dst, name, prop).loop_stack.len() == s.loop_stack.len(),
        s.get_name_prop(dst, name, prop).try_stack.len() == s.try_stack.len(),
{
    broadcast use {ext_get_prop, ext_get_global_prop, ext_load_name_new};

    reveal(RView::get_name_prop);
}

pub broadcast proof fn ext_reload_from(b: RView, s: RView, i: int)
    requires
        #[trigger] builds_on(b, s),
    ensures
        builds_on(b, #[trigger] s.reload_from(i)),
        s.instructions.len() <= s.reload_from(i).instructions.len(),
        s.reload_from(i).loop_stack.len() == s.loop_stack.len(),
        s.reload_from(i).try_stack.len() == s.try_stack.len(),
    decreases s.locals.order.len() - i,
{
    reveal(RView::reload_from);
    if 0 <= i < s.locals.order.len() {
        let name = s.locals.order[i];
        if s.globals.has(name) {
            let code = s.instructions + crate::rcode::rencode(
                ROp::GetGlobal,
                seq![s.locals.map[name], s.globals.map[name]],
            );
            let t = RView { instructions: code, ..s };
            lemma_plain(b, s, t);
            ext_reload_from(b, t, i + 1);
        } else {
            ext_reload_from(b, s, i + 1);
        }
    }
}

pub broadcast proof fn ext_finish_call(b: RView, s: RView, call_dst: u16, dst: u16)
    requires
        #[trigger] builds_on(b, s),
    ensures
        builds_on(b, #[trigger] s.finish_call(call_dst, dst)),
        s.instructions.len() <= s.finish_call(call_dst, dst).instructions.len(),
        s.finish_call(call_dst, dst).loop_stack.len() == s.loop_stack.len(),
        s.finish_call(call_dst, dst).try_stack.len() == s.try_stack.len(),
{
    broadcast use {ext_reload_from, ext_copy_reg};

    reveal(RView::finish_call);
}

pub broadcast proof fn ext_call_dst(b: RView, s: RView, dst: u16)
    requires
        #[trigger] builds_on(b, s),
    ensures
        builds_on(b, (#[trigger] s.call_dst(dst)).0),
        s.instructions.len() <= s.call_dst(dst).0.instructions.len(),
        s.call_dst(dst).0.loop_stack.len() == s.loop_stack.len(),
        s.call_dst(dst).0.try_stack.len() == s.try_stack.len(),
{
    broadcast use ext_take_temp;

    reveal(RView::call_dst);
}

pub broadcast proof fn ext_declare_class(b: RView, s: RView, name: Seq<char>)
    requires
        #[trigger] builds_on(b, s),
    ensures
        builds_on(b, #[trigger] s.declare_class(name)),
        s.instructions.len() <= s.declare_class(name).instructions.len(),
        s.declare_class(name).loop_stack.len() == s.loop_stack.len(),
        s.declare_class(name).try_stack.len() == s.try_stack.len(),
{
    broadcast use {ext_local_reg, ext_global_slot};

    reveal(RView::declare_class);
}

pub broadcast proof fn ext_finish_function(b: RView, s: RView, last: Option<u16>)
    requires
        #[trigger] builds_on(b, s),
    ensures
        builds_on(b, #[trigger] s.finish_function(last)),
        s.instructions.len() <= s.finish_function(last).instructions.len(),
        s.finish_function(last).loop_stack.len() == s.loop_stack.len(),
        s.finish_function(last).try_stack.len() == s.try_stack.len(),
{
    broadcast use ext_emit;

    reveal(RView::finish_function);
}

pub broadcast proof fn ext_declare_locals(b: RView, s: RView, names: Seq<Seq<char>>, i: int)
    requires
        #[trigger] builds_on(b, s),
    ensures
        builds_on(b, #[trigger] s.declare_locals(names, i)),
        s.instructions.len() <= s.declare_locals(names, i).instructions.len(),
        s.declare_locals(names, i).loop_stack.len() == s.loop_stack.len(),
        s.declare_locals(names, i).try_stack.len() == s.try_stack.len(),
    decreases names.len() - i,
{
    broadcast use ext_local_reg;

    reveal(RView::declare_locals);
    if 0 <= i < names.len() {
        ext_declare_locals(b, s.local_reg(names[i]).0, names, i + 1);
    }
}

pub broadcast proof fn ext_declare_all(b: RView, s: RView, names: Seq<Seq<char>>, i: int)
    requires
        #[trigger] builds_on(b, s),
    ensures
        builds_on(b, #[trigger] s.declare_all(names, i)),
        s.instructions.len() <= s.declare_all(names, i).instructions.len(),
        s.declare_all(names, i).loop_stack.len() == s.loop_stack.len(),
        s.declare_all(names, i).try_stack.len() == s.try_stack.len(),
    decreases names.len() - i,
{
    broadcast use ext_binding_slot;

    reveal(RView::declare_all);
    if 0 <= i < names.len() {
        ext_declare_all(b, s.binding_slot(names[i]).0, names, i + 1);
    }
}

pub broadcast proof fn ext_enter_block(
    b: RView,
    s: RView,
    stmts: Seq<Statement>,
    i: int,
    hidden: Seq<(Seq<char>, Option<u16>)>,
)
    requires
        #[trigger] builds_on(b, s),
    ensures
        builds_on(b, (#[trigger] s.enter_block(stmts, i, hidden)).0),
        s.instructions.len() <= s.enter_block(stmts, i, hidden).0.instructions.len(),
        s.enter_block(stmts, i, hidden).0.loop_stack.len() == s.loop_stack.len(),
        s.enter_block(stmts, i, hidden).0.try_stack.len() == s.try_stack.len(),
    decreases stmts.len() - i,
{
    reveal(RView::enter_block);
    if 0 <= i < stmts.len() {
        match stmts[i] {
            Statement::Let { name, kind, .. } => if kind != crate::ast::VariableKind::Var {
                let t = RView { locals: s.locals.unset(name@), ..s };
                lemma_plain(b, s, t);
                ext_enter_block(b, t, stmts, i + 1, hidden.push((name@, s.locals.get(name@))));
            } else {
                ext_enter_block(b, s, stmts, i + 1, hidden);
            },
            _ => ext_enter_block(b, s, stmts, i + 1, hidden),
        }
    }
}

pub broadcast proof fn ext_exit_block(
    b: RView,
    s: RView,
    hidden: Seq<(Seq<char>, Option<u16>)>,
    i: int,
)
    requires
        #[trigger] builds_on(b, s),
    ensures
        builds_on(b, #[trigger] s.exit_block(hidden, i)),
        s.instructions.len() <= s.exit_block(hidden, i).instructions.len(),
        s.exit_block(hidden, i).loop_stack.len() == s.loop_stack.len(),
        s.exit_block(hidden, i).try_stack.len() == s.try_stack.len(),
    decreases hidden.len() - i,
{
    reveal(RView::exit_block);
    if 0 <= i < hidden.len() {
        let (name, old) = hidden[i];
        let t = RView {
            locals: match old {
                Some(r) => s.locals.set(name, r),
                None => s.locals.unset(name),
            },
            ..s
        };
        lemma_plain(b, s, t);
        ext_exit_block(b, t, hidden, i + 1);
    }
}

pub broadcast proof fn ext_patch(b: RView, s: RView, pos: usize, target: usize)
    requires
        #[trigger] builds_on(b, s),
        s.instructions.len() <= usize::MAX ==> b.instructions.len() <= pos,
    ensures
        builds_on(b, #[trigger] s.patch(pos, target)),
        s.instructions.len() <= s.patch(pos, target).instructions.len(),
        s.patch(pos, target).loop_stack.len() == s.loop_stack.len(),
        s.patch(pos, target).try_stack.len() == s.try_stack.len(),
        s.patch(pos, target).instructions.len() == s.instructions.len(),
{
    reveal(RView::patch);
    reveal(builds_on);
    let t = s.patch(pos, target);
    assert(t.instructions.len() == s.instructions.len());
    if t.instructions.len() <= usize::MAX {
        assert forall|i: int| 0 <= i < b.instructions.len() implies t.instructions[i]
            == #[trigger] b.instructions[i] by {
            assert(s.instructions[i] == b.instructions[i]);
        }
    }
}

pub broadcast proof fn ext_patch_all(
    b: RView,
    s: RView,
    positions: Seq<usize>,
    i: int,
    target: usize,
)
    requires
        #[trigger] builds_on(b, s),
        s.instructions.len() <= usize::MAX ==> all_from(positions, b.instructions.len() as int),
    ensures
        builds_on(b, #[trigger] s.patch_all(positions, i, target)),
        s.instructions.len() <= s.patch_all(positions, i, target).instructions.len(),
        s.patch_all(positions, i, target).loop_stack.len() == s.loop_stack.len(),
        s.patch_all(positions, i, target).try_stack.len() == s.try_stack.len(),
        s.patch_all(positions, i, target).instructions.len() == s.instructions.len(),
    decreases positions.len() - i,
{
    reveal(RView::patch_all);
    if 0 <= i < positions.len() {
        ext_patch(b, s, positions[i], target);
        ext_patch_all(b, s.patch(positions[i], target), positions, i + 1, target);
    }
}

pub broadcast proof fn ext_open_loop(b: RView, s: RView, label: Option<Seq<char>>, target: usize)
    requires
        #[trigger] builds_on(b, s),
    ensures
        builds_on(b, #[trigger] s.open_loop(label, target)),
        s.instructions.len() <= s.open_loop(label, target).instructions.len(),
        s.open_loop(label, target).loop_stack.len() == s.loop_stack.len() + 1,
        s.open_loop(label, target).try_stack.len() == s.try_stack.len(),
        s.open_loop(label, target).instructions == s.instructions,
{
    reveal(RView::open_loop);
    reveal(builds_on);
    let t = s.open_loop(label, target);
    let n = s.loop_stack.len() as int;
    if t.instructions.len() <= usize::MAX {
        assert forall|k: int, p: usize|
            0 <= k < t.loop_stack.len() && #[trigger] waits_in_loop(t.loop_stack[k], p) implies p
            < t.instructions.len() && (b.instructions.len() <= p || k < b.loop_stack.len()
            && waits_in_loop(b.loop_stack[k], p)) by {
            if k < n {
                assert(t.loop_stack[k] == s.loop_stack[k]);
            }
        }
    }
}

pub broadcast proof fn ext_continue_here(b: RView, s: RView)
    requires
        #[trigger] builds_on(b, s),
    ensures
        builds_on(b, #[trigger] s.continue_here()),
        s.instructions.len() <= s.continue_here().instructions.len(),
        s.continue_here().loop_stack.len() == s.loop_stack.len(),
        s.continue_here().try_stack.len() == s.try_stack.len(),
        s.continue_here().instructions == s.instructions,
{
    reveal(RView::continue_here);
    reveal(builds_on);
    let t = s.continue_here();
    if t.instructions.len() <= usize::MAX {
        assert forall|k: int, p: usize|
            0 <= k < t.loop_stack.len() && #[trigger] waits_in_loop(t.loop_stack[k], p) implies p
            < t.instructions.len() && (b.instructions.len() <= p || k < b.loop_stack.len()
            && waits_in_loop(b.loop_stack[k], p)) by {
            assert(waits_in_loop(s.loop_stack[k], p));
        }
    }
}

pub broadcast proof fn ext_close_loop(b: RView, s: RView, end: usize)
    requires
        #[trigger] builds_on(b, s),
        s.loop_stack.len() > b.loop_stack.len(),
    ensures
        builds_on(b, #[trigger] s.close_loop(end)),
        s.instructions.len() <= s.close_loop(end).instructions.len(),
        s.close_loop(end).loop_stack.len() == s.loop_stack.len() - 1,
        s.close_loop(end).try_stack.len() == s.try_stack.len(),
        s.close_loop(end).instructions.len() == s.instructions.len(),
{
    let n = s.loop_stack.len() - 1;
    let ctx = s.loop_stack[n];
    let t = RView { loop_stack: s.loop_stack.drop_last(), ..s };
    assert(builds_on(b, t) && (t.instructions.len() <= usize::MAX ==> all_from(
        ctx.break_positions,
        b.instructions.len() as int,
    ) && all_from(ctx.continue_positions, b.instructions.len() as int))) by {
        reveal(builds_on);
        if t.instructions.len() <= usize::MAX {
            assert forall|k: int, p: usize|
                0 <= k < t.loop_stack.len() && #[trigger] waits_in_loop(
                    t.loop_stack[k],
                    p,
                ) implies p < t.instructions.len() && (b.instructions.len() <= p || k
                < b.loop_stack.len() && waits_in_loop(b.loop_stack[k], p)) by {
                assert(waits_in_loop(s.loop_stack[k], p));
            }
            assert forall|k: int| 0 <= k < ctx.break_positions.len() implies b.instructions.len()
                <= #[trigger] ctx.break_positions[k] by {
                assert(waits_in_loop(s.loop_stack[n], ctx.break_positions[k]));
            }
            assert forall|k: int| 0 <= k < ctx.continue_positions.len() implies b.instructions.len()
                <= #[trigger] ctx.continue_positions[k] by {
                assert(waits_in_loop(s.loop_stack[n], ctx.continue_positions[k]));
            }
        }
    }
    reveal(RView::close_loop);
    ext_patch_all(b, t, ctx.break_positions, 0, end);
    let u = t.patch_all(ctx.break_positions, 0, end);
    ext_patch_all(b, u, ctx.continue_positions, 0, ctx.continue_target);
}

pub broadcast proof fn ext_close_switch(b: RView, s: RView, end: usize)
    requires
        #[trigger] builds_on(b, s),
        s.loop_stack.len() > b.loop_stack.len(),
    ensures
        builds_on(b, #[trigger] s.close_switch(end)),
        s.instructions.len() <= s.close_switch(end).instructions.len(),
        s.close_switch(end).loop_stack.len() == s.loop_stack.len() - 1,
        s.close_switch(end).try_stack.len() == s.try_stack.len(),
        s.close_switch(end).instructions.len() == s.instructions.len(),
{
    let n = s.loop_stack.len() - 1;
    let ctx = s.loop_stack[n];
    let t = RView { loop_stack: without_switch(s.loop_stack), ..s };
    assert(builds_on(b, t) && (t.instructions.len() <= usize::MAX ==> all_from(
        ctx.break_positions,
        b.instructions.len() as int,
    ))) by {
        reveal(builds_on);
        if t.instructions.len() <= usize::MAX {
            assert forall|k: int, p: usize|
                0 <= k < t.loop_stack.len() && #[trigger] waits_in_loop(
                    t.loop_stack[k],
                    p,
                ) implies p < t.instructions.len() && (b.instructions.len() <= p || k
                < b.loop_stack.len() && waits_in_loop(b.loop_stack[k], p)) by {
                if waits_in_loop(s.loop_stack[k], p) {
                } else {
                    let both = s.loop_stack[k].continue_positions + ctx.continue_positions;
                    assert(both.contains(p));
                    let j = choose|j: int| 0 <= j < both.len() && both[j] == p;
                    if j < s.loop_stack[k].continue_positions.len() {
                        assert(s.loop_stack[k].continue_positions[j] == p);
                    } else {
                        assert(ctx.continue_positions[j - s.loop_stack[k].continue_positions.len()]
                            == p);
                    }
                    assert(waits_in_loop(s.loop_stack[n], p));
                }
            }
            assert forall|k: int| 0 <= k < ctx.break_positions.len() implies b.instructions.len()
                <= #[trigger] ctx.break_positions[k] by {
                assert(waits_in_loop(s.loop_stack[n], ctx.break_positions[k]));
            }
        }
    }
    reveal(RView::close_switch);
    ext_patch_all(b, t, ctx.break_positions, 0, end);
    ext_fail(b, t.patch_all(ctx.break_positions, 0, end), "loop control outside loop"@);
    reveal(RView::fail);
}

pub broadcast proof fn ext_jump_from_loop(
    b: RView,
    s: RView,
    label: Option<Seq<char>>,
    is_break: bool,
)
    requires
        #[trigger] builds_on(b, s),
    ensures
        builds_on(b, #[trigger] s.jump_from_loop(label, is_break)),
        s.instructions.len() <= s.jump_from_loop(label, is_break).instructions.len(),
        s.jump_from_loop(label, is_break).loop_stack.len() == s.loop_stack.len(),
        s.jump_from_loop(label, is_break).try_stack.len() == s.try_stack.len(),
{
    broadcast use {ext_emit, ext_fail, ext_here};

    let pos = s.here();
    let t = s.emit(ROp::Jump, seq![PLACEHOLDER]);
    let r = s.jump_from_loop(label, is_break);
    reveal(RView::jump_from_loop);
    assert(s.instructions.len() < t.instructions.len()) by {
        reveal(RView::emit);
        crate::rcode::law_rencode_length(ROp::Jump, seq![PLACEHOLDER]);
    }
    lemma_loop_index(t.loop_stack, label, t.loop_stack.len() as int);
    if let Some(n) = loop_index(t.loop_stack, label, t.loop_stack.len() as int) {
        reveal(builds_on);
        if r.instructions.len() <= usize::MAX {
            assert forall|k: int, p: usize|
                0 <= k < r.loop_stack.len() && #[trigger] waits_in_loop(
                    r.loop_stack[k],
                    p,
                ) implies p < r.instructions.len() && (b.instructions.len() <= p || k
                < b.loop_stack.len() && waits_in_loop(b.loop_stack[k], p)) by {
                if p != pos {
                    assert(waits_in_loop(t.loop_stack[k], p)) by {
                        lemma_pushed(t.loop_stack[k].break_positions, pos, p);
                        lemma_pushed(t.loop_stack[k].continue_positions, pos, p);
                    }
                }
            }
        }
    }
}

pub broadcast proof fn ext_open_try(
    b: RView,
    s: RView,
    exception: Seq<char>,
    deferred: Option<(Seq<char>, Seq<char>)>,
)
    requires
        #[trigger] builds_on(b, s),
    ensures
        builds_on(b, #[trigger] s.open_try(exception, deferred)),
        s.instructions.len() <= s.open_try(exception, deferred).instructions.len(),
        s.open_try(exception, deferred).loop_stack.len() == s.loop_stack.len(),
        s.open_try(exception, deferred).try_stack.len() == s.try_stack.len() + 1,
        s.open_try(exception, deferred).instructions == s.instructions,
{
    reveal(RView::open_try);
    reveal(builds_on);
    let t = s.open_try(exception, deferred);
    let n = s.try_stack.len() as int;
    if t.instructions.len() <= usize::MAX {
        assert forall|k: int, p: usize|
            0 <= k < t.try_stack.len() && #[trigger] waits_in_try(t.try_stack[k], p) implies p
            < t.instructions.len() && (b.instructions.len() <= p || k < b.try_stack.len()
            && waits_in_try(b.try_stack[k], p)) by {
            if k < n {
                assert(t.try_stack[k] == s.try_stack[k]);
            }
        }
    }
}

pub broadcast proof fn ext_close_try(b: RView, s: RView)
    requires
        #[trigger] builds_on(b, s),
        s.try_stack.len() > b.try_stack.len(),
    ensures
        builds_on(b, (#[trigger] s.close_try()).0),
        s.instructions.len() <= s.close_try().0.instructions.len(),
        s.close_try().0.loop_stack.len() == s.loop_stack.len(),
        s.close_try().0.try_stack.len() == s.try_stack.len() - 1,
        s.close_try().0.instructions.len() == s.instructions.len(),
        s.instructions.len() <= usize::MAX ==> all_from(
            s.close_try().1,
            b.instructions.len() as int,
        ),
{
    let n = s.try_stack.len() - 1;
    let ctx = s.try_stack[n];
    let t = RView { try_stack: s.try_stack.drop_last(), ..s };
    assert(builds_on(b, t) && (t.instructions.len() <= usize::MAX ==> all_from(
        ctx.throw_jumps,
        b.instructions.len() as int,
    ) && all_from(ctx.return_jumps, b.instructions.len() as int))) by {
        reveal(builds_on);
        if t.instructions.len() <= usize::MAX {
            assert forall|k: int, p: usize|
                0 <= k < t.try_stack.len() && #[trigger] waits_in_try(
                    t.try_stack[k],
                    p,
                ) implies p < t.instructions.len() && (b.instructions.len() <= p || k
                < b.try_stack.len() && waits_in_try(b.try_stack[k], p)) by {
                assert(waits_in_try(s.try_stack[k], p));
            }
            assert forall|k: int| 0 <= k < ctx.throw_jumps.len() implies b.instructions.len()
                <= #[trigger] ctx.throw_jumps[k] by {
                assert(waits_in_try(s.try_stack[n], ctx.throw_jumps[k]));
            }
            assert forall|k: int| 0 <= k < ctx.return_jumps.len() implies b.instructions.len()
                <= #[trigger] ctx.return_jumps[k] by {
                assert(waits_in_try(s.try_stack[n], ctx.return_jumps[k]));
            }
        }
    }
    reveal(RView::close_try);
    ext_patch_all(b, t, ctx.throw_jumps, 0, s.here());
}

pub broadcast proof fn ext_throw_to_handler(b: RView, s: RView, src: u16)
    requires
        #[trigger] builds_on(b, s),
    ensures
        builds_on(b, #[trigger] s.throw_to_handler(src)),
        s.instructions.len() <= s.throw_to_handler(src).instructions.len(),
        s.throw_to_handler(src).loop_stack.len() == s.loop_stack.len(),
        s.throw_to_handler(src).try_stack.len() == s.try_stack.len(),
{
    broadcast use {ext_emit, ext_store_name, ext_after_name, ext_here};

    reveal(RView::throw_to_handler);
    let n = s.try_stack.len() - 1;
    let (exception, u) = if n >= 0 {
        (s.try_stack[n].exception_temp, s)
    } else {
        (s.hidden("exc_fallback"@), s.after_name())
    };
    let u = u.store_name(exception, src);
    let pos = u.here();
    let t = u.emit(ROp::Jump, seq![PLACEHOLDER]);
    let r = s.throw_to_handler(src);
    assert(u.instructions.len() < t.instructions.len()) by {
        reveal(RView::emit);
        crate::rcode::law_rencode_length(ROp::Jump, seq![PLACEHOLDER]);
    }
    if 0 <= n < t.try_stack.len() {
        reveal(builds_on);
        if r.instructions.len() <= usize::MAX {
            assert forall|k: int, p: usize|
                0 <= k < r.try_stack.len() && #[trigger] waits_in_try(
                    r.try_stack[k],
                    p,
                ) implies p < r.instructions.len() && (b.instructions.len() <= p || k
                < b.try_stack.len() && waits_in_try(b.try_stack[k], p)) by {
                if p != pos {
                    assert(waits_in_try(t.try_stack[k], p)) by {
                        lemma_pushed(t.try_stack[k].throw_jumps, pos, p);
                    }
                }
            }
        }
    }
}

pub broadcast proof fn ext_defer_return(
    b: RView,
    s: RView,
    value: Seq<char>,
    flag: Seq<char>,
    src: u16,
)
    requires
        #[trigger] builds_on(b, s),
    ensures
        builds_on(b, #[trigger] s.defer_return(value, flag, src)),
        s.instructions.len() <= s.defer_return(value, flag, src).instructions.len(),
        s.defer_return(value, flag, src).loop_stack.len() == s.loop_stack.len(),
        s.defer_return(value, flag, src).try_stack.len() == s.try_stack.len(),
{
    broadcast use {ext_emit, ext_store_name, ext_take_temp, ext_here};

    reveal(RView::defer_return);
    let u = s.store_name(value, src);
    let set = u.next_temp;
    let u = u.take_temp().emit(ROp::LoadTrue, seq![set]).store_name(flag, set);
    let pos = u.here();
    let t = u.emit(ROp::Jump, seq![PLACEHOLDER]);
    let r = s.defer_return(value, flag, src);
    assert(u.instructions.len() < t.instructions.len()) by {
        reveal(RView::emit);
        crate::rcode::law_rencode_length(ROp::Jump, seq![PLACEHOLDER]);
    }
    lemma_deferring(t.try_stack, t.try_stack.len() as int);
    if let Some(n) = deferring(t.try_stack, t.try_stack.len() as int) {
        reveal(builds_on);
        if r.instructions.len() <= usize::MAX {
            assert forall|k: int, p: usize|
                0 <= k < r.try_stack.len() && #[trigger] waits_in_try(
                    r.try_stack[k],
                    p,
                ) implies p < r.instructions.len() && (b.instructions.len() <= p || k
                < b.try_stack.len() && waits_in_try(b.try_stack[k], p)) by {
                if p != pos {
                    assert(waits_in_try(t.try_stack[k], p)) by {
                        lemma_pushed(t.try_stack[k].return_jumps, pos, p);
                    }
                }
            }
        }
    }
}

proof fn lemma_pushed(list: Seq<usize>, q: usize, p: usize)
    requires
        p != q,
    ensures
        list.push(q).contains(p) ==> list.contains(p),
{
    if list.push(q).contains(p) {
        let k = choose|k: int| 0 <= k < list.push(q).len() && list.push(q)[k] == p;
        assert(list[k] == p);
    }
}

proof fn lemma_loop_index(stack: Seq<LoopView>, label: Option<Seq<char>>, n: int)
    requires
        n <= stack.len(),
    ensures
        loop_index(stack, label, n) matches Some(k) ==> 0 <= k < n,
    decreases n,
{
    if n > 0 {
        lemma_loop_index(stack, label, n - 1);
    }
}

proof fn lemma_deferring(stack: Seq<RTryView>, n: int)
    requires
        n <= stack.len(),
    ensures
        deferring(stack, n) matches Some(k) ==> 0 <= k < n,
    decreases n,
{
    if n > 0 {
        lemma_deferring(stack, n - 1);
    }
}

pub broadcast proof fn ext_numeric_constant(b: RView, s: RView, e: Expression)
    requires
        #[trigger] builds_on(b, s),
    ensures
        builds_on(b, (#[trigger] numeric_constant(s, e)).0),
        s.instructions.len() <= numeric_constant(s, e).0.instructions.len(),
        numeric_constant(s, e).0.loop_stack.len() == s.loop_stack.len(),
        numeric_constant(s, e).0.try_stack.len() == s.try_stack.len(),
{
    broadcast use {ext_add_int, ext_add_float};

    reveal(numeric_constant);
}

pub broadcast proof fn ext_rfuse_compare(b: RView, s: RView, e: Expression)
    requires
        #[trigger] builds_on(b, s),
    ensures
        builds_on(b, (#[trigger] rfuse_compare(s, e)).0),
        s.instructions.len() <= rfuse_compare(s, e).0.instructions.len(),
        rfuse_compare(s, e).0.loop_stack.len() == s.loop_stack.len(),
        rfuse_compare(s, e).0.try_stack.len() == s.try_stack.len(),
{
    broadcast use ext_numeric_constant;

    reveal(rfuse_compare);
}

pub broadcast proof fn ext_rfuse_mod_eq(b: RView, s: RView, e: Expression)
    requires
        #[trigger] builds_on(b, s),
    ensures
        builds_on(b, (#[trigger] rfuse_mod_eq(s, e)).0),
        s.instructions.len() <= rfuse_mod_eq(s, e).0.instructions.len(),
        rfuse_mod_eq(s, e).0.loop_stack.len() == s.loop_stack.len(),
        rfuse_mod_eq(s, e).0.try_stack.len() == s.try_stack.len(),
{
    broadcast use ext_numeric_constant;

    reveal(rfuse_mod_eq);
}

pub broadcast proof fn ext_rfuse_increment(b: RView, s: RView, e: Expression)
    requires
        #[trigger] builds_on(b, s),
    ensures
        builds_on(b, (#[trigger] rfuse_increment(s, e)).0),
        s.instructions.len() <= rfuse_increment(s, e).0.instructions.len(),
        rfuse_increment(s, e).0.loop_stack.len() == s.loop_stack.len(),
        rfuse_increment(s, e).0.try_stack.len() == s.try_stack.len(),
{
    broadcast use ext_numeric_constant;

    reveal(rfuse_increment);
}

} // verus!
