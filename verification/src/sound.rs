//! What holds of stack code at each point of its generation: it consists of whole
//! instructions.
use vstd::prelude::*;

use crate::ast::Expression;
use crate::builtins::{global_member, member_object};
use crate::code::{widths_total, Opcode};
use crate::codegen::{
    fuse_compare, fuse_increment, fuse_mod_eq, fuse_property_increment,
    fuse_property_sum, loop_index, number_constant, without_switch, CompilerView, LoopView, Slot, TryView,
    PLACEHOLDER,
};
use crate::layout::{
    has_word, is_complete, leads, length_of, lemma_add, lemma_between, lemma_cut,
    lemma_length, lemma_lengthened, lemma_recoded, lemma_set_word,
};
use crate::names::Names;
use crate::object::{ClassView, FunctionView, ObjectView};
use crate::parts::{
    class_all, classes_all, lemma_class_filed, lemma_object_weaker, object_all,
};
use crate::rules::{blank_function, declare_all};

verus! {

/// Whether the code of a function, of the functions among its constants, of the
/// functions among theirs and so on to a depth, consists of whole instructions.
pub open spec fn is_composed_to(f: FunctionView, depth: nat) -> bool
    decreases depth, 0int,
{
    is_complete(f.instructions) && (depth > 0 ==> forall|i: int|
        0 <= i < f.constants.len() ==> object_all(
            #[trigger] f.constants[i],
            composed_to((depth - 1) as nat),
        ))
}

pub open spec fn composed_to(depth: nat) -> spec_fn(FunctionView) -> bool
    decreases depth, 1int,
{
    |f: FunctionView| is_composed_to(f, depth)
}

/// Whether the code of a function, and of the functions in it, consists of whole
/// instructions.
pub open spec fn is_composed(f: FunctionView) -> bool {
    forall|depth: nat| #[trigger] is_composed_to(f, depth)
}

pub open spec fn composed() -> spec_fn(FunctionView) -> bool {
    |f: FunctionView| is_composed(f)
}

/// The same of the functions and classes among constants.
pub open spec fn are_composed(constants: Seq<ObjectView>) -> bool {
    forall|i: int| 0 <= i < constants.len() ==> object_all(#[trigger] constants[i], composed())
}

proof fn lemma_composed(f: FunctionView)
    requires
        is_complete(f.instructions),
        are_composed(f.constants),
    ensures
        is_composed(f),
{
    assert forall|depth: nat| #[trigger] is_composed_to(f, depth) by {
        if depth > 0 {
            let q = composed_to((depth - 1) as nat);
            assert forall|i: int| 0 <= i < f.constants.len() implies object_all(
                #[trigger] f.constants[i],
                q,
            ) by {
                assert forall|g: FunctionView| #[trigger] composed()(g) implies q(g) by {
                    assert(is_composed_to(g, (depth - 1) as nat));
                }
                lemma_object_weaker(f.constants[i], composed(), q);
            }
        }
    }
}

/// A function that was rejected is composed of no instructions.
pub proof fn lemma_blank_is_composed()
    ensures
        is_composed(blank_function()),
{
    lemma_composed(blank_function());
}

/// Whether an instruction may be taken back or rewritten while it is the last one.
pub open spec fn is_passing(op: Opcode) -> bool {
    match op {
        Opcode::OpPop
        | Opcode::OpGetLocal
        | Opcode::OpGetGlobal
        | Opcode::OpSetLocalProperty
        | Opcode::OpSetGlobalProperty
        | Opcode::OpIncrementGlobal => true,
        _ => false,
    }
}

spec fn is_passing_byte(byte: u8) -> bool {
    ||| byte == Opcode::OpPop as u8
    ||| byte == Opcode::OpGetLocal as u8
    ||| byte == Opcode::OpGetGlobal as u8
    ||| byte == Opcode::OpSetLocalProperty as u8
    ||| byte == Opcode::OpSetGlobalProperty as u8
    ||| byte == Opcode::OpIncrementGlobal as u8
}

/// Whether a jump stands at `p` whose target is `offset` bytes into its operands.
#[verifier::opaque]
pub closed spec fn is_jump(s: CompilerView, p: usize, offset: int) -> bool {
    s.err is None ==> has_word(s.instructions, p as int, offset) && !is_passing_byte(
        s.instructions[p as int],
    )
}

pub open spec fn are_jumps(s: CompilerView, positions: Seq<usize>) -> bool {
    forall|i: int| 0 <= i < positions.len() ==> is_jump(s, #[trigger] positions[i], 0)
}

/// Where in its operands the target of an instruction stands.
pub open spec fn jump_offset(op: Opcode) -> Option<int> {
    match op {
        Opcode::OpJump | Opcode::OpJumpNotTruthy => Some(0),
        Opcode::OpTestLocalLtConstJump
        | Opcode::OpTestLocalLeConstJump
        | Opcode::OpTestGlobalLtConstJump
        | Opcode::OpTestGlobalLeConstJump => Some(4),
        Opcode::OpModGlobalConstStrictEqConstJump => Some(6),
        _ => None,
    }
}

/// Whether the last instruction is where it is thought to be, if it may still change.
spec fn last_sound(s: CompilerView) -> bool {
    s.last_opcode matches Some(op) ==> is_passing(op) ==> {
        &&& s.last_position < s.instructions.len()
        &&& leads(s.instructions, 0, s.last_position as int)
        &&& s.instructions[s.last_position as int] == op as u8
        &&& s.last_position + length_of(op) == s.instructions.len()
    }
}

spec fn loop_sound(s: CompilerView, l: LoopView) -> bool {
    are_jumps(s, l.break_positions) && are_jumps(s, l.continue_positions)
}

spec fn try_sound(s: CompilerView, t: TryView) -> bool {
    are_jumps(s, t.throw_jumps)
}

/// Whether the code that was generated so far is in order.
#[verifier::opaque]
pub closed spec fn is_sound(s: CompilerView) -> bool {
    &&& s.err is None ==> {
        &&& is_complete(s.instructions)
        &&& last_sound(s)
        &&& are_composed(s.constants)
        &&& classes_all(s.class_defs, composed())
    }
    &&& forall|i: int| 0 <= i < s.loop_stack.len() ==> loop_sound(s, #[trigger] s.loop_stack[i])
    &&& forall|i: int| 0 <= i < s.try_stack.len() ==> try_sound(s, #[trigger] s.try_stack[i])
}

/// Whether code is in order, and the jumps of what was in order before are still
/// where they were.
#[verifier::opaque]
pub closed spec fn grows(b: CompilerView, s: CompilerView) -> bool {
    &&& is_sound(b)
    &&& is_sound(s)
    &&& s.err is None ==> b.err is None
    &&& forall|p: usize, offset: int| #[trigger] is_jump(b, p, offset) ==> is_jump(s, p, offset)
}

pub proof fn lemma_grows_sound(b: CompilerView, s: CompilerView)
    requires
        grows(b, s),
    ensures
        is_sound(b),
        is_sound(s),
        grows(s, s),
{
    reveal(grows);
}

/// Once a program was rejected it stays so.
pub proof fn lemma_err_stays(b: CompilerView, s: CompilerView)
    requires
        grows(b, s),
    ensures
        s.err is None ==> b.err is None,
{
    reveal(grows);
}

pub proof fn lemma_grows_self(s: CompilerView)
    requires
        is_sound(s),
    ensures
        grows(s, s),
{
    reveal(grows);
}

pub proof fn lemma_grows_all(s: CompilerView, t: CompilerView)
    requires
        grows(s, t),
    ensures
        forall|a: CompilerView| #[trigger] grows(a, s) ==> grows(a, t),
{
    reveal(grows);
}

pub broadcast proof fn growth_is_sound(b: CompilerView, s: CompilerView)
    requires
        #[trigger] grows(b, s),
    ensures
        is_sound(s),
{
    reveal(grows);
}

pub broadcast proof fn jump_stays(a: CompilerView, s: CompilerView, p: usize, offset: int)
    requires
        #[trigger] grows(a, s),
        #[trigger] is_jump(a, p, offset),
    ensures
        is_jump(s, p, offset),
{
    reveal(grows);
}

pub broadcast proof fn jumps_stay(a: CompilerView, s: CompilerView, positions: Seq<usize>)
    requires
        #[trigger] grows(a, s),
        #[trigger] are_jumps(a, positions),
    ensures
        are_jumps(s, positions),
{
    reveal(grows);
}

/// A state that differs from another one only in what code does not depend on.
proof fn lemma_same(b: CompilerView, s: CompilerView, t: CompilerView)
    requires
        grows(b, s),
        t.err is None ==> s.err is None,
        t.instructions == s.instructions,
        t.constants == s.constants,
        t.loop_stack == s.loop_stack,
        t.try_stack == s.try_stack,
        t.last_opcode == s.last_opcode,
        t.last_position == s.last_position,
        t.class_defs == s.class_defs,
    ensures
        grows(b, t),
{
    assert(are_composed(t.constants) == are_composed(s.constants));
    lemma_new_code(b, s, t);
}

/// A state with other code, in which jumps are where they were.
proof fn lemma_new_code(b: CompilerView, s: CompilerView, t: CompilerView)
    requires
        grows(b, s),
        t.err is None ==> s.err is None,
        t.err is None && is_sound(s) && is_complete(s.instructions) && last_sound(s)
            && are_composed(s.constants) && classes_all(s.class_defs, composed()) ==> {
            &&& is_complete(t.instructions)
            &&& last_sound(t)
            &&& are_composed(t.constants)
            &&& classes_all(t.class_defs, composed())
            &&& forall|p: int, offset: int|
                #![trigger has_word(s.instructions, p, offset)]
                has_word(s.instructions, p, offset) && !is_passing_byte(s.instructions[p])
                    ==> has_word(t.instructions, p, offset) && t.instructions[p]
                    == s.instructions[p]
        },
        t.loop_stack == s.loop_stack,
        t.try_stack == s.try_stack,
    ensures
        grows(b, t),
{
    reveal(grows);
    reveal(is_sound);
    reveal(is_jump);
    assert forall|p: usize, offset: int| #[trigger] is_jump(s, p, offset) implies is_jump(
        t,
        p,
        offset,
    ) by {}
    assert forall|i: int| 0 <= i < t.loop_stack.len() implies loop_sound(
        t,
        #[trigger] t.loop_stack[i],
    ) by {
        assert(loop_sound(s, s.loop_stack[i]));
    }
    assert forall|i: int| 0 <= i < t.try_stack.len() implies try_sound(
        t,
        #[trigger] t.try_stack[i],
    ) by {
        assert(try_sound(s, s.try_stack[i]));
    }
}

pub broadcast proof fn step_emit(
    b: CompilerView,
    s: CompilerView,
    op: Opcode,
    operands: Seq<u16>,
)
    requires
        #[trigger] grows(b, s),
    ensures
        grows(b, #[trigger] s.emit(op, operands)),
        jump_offset(op) matches Some(offset) ==> is_jump(s.emit(op, operands), s.here(), offset)
            && grows(s.emit(op, operands), s.emit(op, operands)),
{
    reveal(CompilerView::emit);
    reveal(CompilerView::here);
    let t = s.emit(op, operands);
    if t.err is None && is_complete(s.instructions) {
        lemma_add(s.instructions, op, operands);
        assert forall|p: int, offset: int|
            #![trigger has_word(s.instructions, p, offset)]
            has_word(s.instructions, p, offset) implies t.instructions[p] == s.instructions[p] by {}
    }
    lemma_new_code(b, s, t);
    lemma_grows_sound(b, t);
    if let Some(offset) = jump_offset(op) {
        assert(offset + 3 <= length_of(op)) by {
            reveal_with_fuel(widths_total, 5);
        }
        assert(is_jump(t, s.here(), offset)) by {
            reveal(is_jump);
            reveal(grows);
            reveal(is_sound);
        }
    }
}

pub broadcast proof fn step_patch(
    b: CompilerView,
    s: CompilerView,
    pos: usize,
    offset: int,
    target: usize,
)
    requires
        #[trigger] grows(b, s),
        is_jump(s, pos, offset),
    ensures
        grows(b, #[trigger] s.patch(pos, offset, target)),
{
    reveal(CompilerView::patch);
    reveal(is_jump);
    let t = s.patch(pos, offset, target);
    if t.err is None && is_complete(s.instructions) {
        lemma_set_word(s.instructions, pos as int, offset, target as u16);
        assert forall|p: int, o: int|
            #![trigger has_word(s.instructions, p, o)]
            has_word(s.instructions, p, o) implies t.instructions[p] == s.instructions[p] by {
            assert(leads(s.instructions, 0, p));
        }
    }
    lemma_new_code(b, s, t);
}

pub broadcast proof fn step_patch_all(
    b: CompilerView,
    s: CompilerView,
    positions: Seq<usize>,
    i: int,
    target: usize,
)
    requires
        #[trigger] grows(b, s),
        are_jumps(s, positions),
    ensures
        grows(b, #[trigger] s.patch_all(positions, i, target)),
    decreases positions.len() - i,
{
    reveal(CompilerView::patch_all);
    if 0 <= i < positions.len() {
        let t = s.patch(positions[i], 0, target);
        lemma_grows_sound(b, s);
        step_patch(b, s, positions[i], 0, target);
        step_patch(s, s, positions[i], 0, target);
        jumps_stay(s, t, positions);
        step_patch_all(b, t, positions, i + 1, target);
    }
}

pub broadcast proof fn step_emit0(b: CompilerView, s: CompilerView, op: Opcode)
    requires
        #[trigger] grows(b, s),
    ensures
        grows(b, #[trigger] s.emit0(op)),
{
    reveal(CompilerView::emit0);
    step_emit(b, s, op, seq![]);
}

pub broadcast proof fn step_emit1(b: CompilerView, s: CompilerView, op: Opcode, a: u16)
    requires
        #[trigger] grows(b, s),
    ensures
        grows(b, #[trigger] s.emit1(op, a)),
        jump_offset(op) matches Some(offset) ==> is_jump(s.emit1(op, a), s.here(), offset) && grows(
            s.emit1(op, a),
            s.emit1(op, a),
        ),
{
    reveal(CompilerView::emit1);
    step_emit(b, s, op, seq![a]);
}

pub broadcast proof fn step_fail(b: CompilerView, s: CompilerView, message: Seq<char>)
    requires
        #[trigger] grows(b, s),
    ensures
        grows(b, #[trigger] s.fail(message)),
{
    reveal(CompilerView::fail);
    lemma_same(b, s, s.fail(message));
}

pub broadcast proof fn step_after_temp(b: CompilerView, s: CompilerView)
    requires
        #[trigger] grows(b, s),
    ensures
        grows(b, #[trigger] s.after_temp()),
{
    reveal(CompilerView::after_temp);
    lemma_same(b, s, s.after_temp());
}

pub broadcast proof fn step_after_cache_slot(b: CompilerView, s: CompilerView)
    requires
        #[trigger] grows(b, s),
    ensures
        grows(b, #[trigger] s.after_cache_slot()),
{
    reveal(CompilerView::after_cache_slot);
    lemma_same(b, s, s.after_cache_slot());
}

pub broadcast proof fn step_clear_elided(b: CompilerView, s: CompilerView)
    requires
        #[trigger] grows(b, s),
    ensures
        grows(b, #[trigger] s.clear_elided()),
{
    reveal(CompilerView::clear_elided);
    lemma_same(b, s, s.clear_elided());
}

pub broadcast proof fn step_set_elided(b: CompilerView, s: CompilerView, op: Opcode, slot: u16)
    requires
        #[trigger] grows(b, s),
    ensures
        grows(b, #[trigger] s.set_elided(op, slot)),
{
    reveal(CompilerView::set_elided);
    lemma_same(b, s, s.set_elided(op, slot));
}

pub broadcast proof fn step_declare_const(b: CompilerView, s: CompilerView, name: Seq<char>)
    requires
        #[trigger] grows(b, s),
    ensures
        grows(b, #[trigger] s.declare_const(name)),
{
    reveal(CompilerView::declare_const);
    lemma_same(b, s, s.declare_const(name));
}

pub broadcast proof fn step_declare_consts(b: CompilerView, s: CompilerView, names: Seq<Seq<char>>)
    requires
        #[trigger] grows(b, s),
    ensures
        grows(b, #[trigger] s.declare_consts(names)),
{
    reveal(CompilerView::declare_consts);
    lemma_same(b, s, s.declare_consts(names));
}

pub broadcast proof fn step_define_class(
    b: CompilerView,
    s: CompilerView,
    name: Seq<char>,
    class: ClassView,
)
    requires
        #[trigger] grows(b, s),
        s.err is None ==> class_all(class, composed()),
    ensures
        grows(b, #[trigger] s.define_class(name, class)),
{
    reveal(CompilerView::define_class);
    if s.err is None && classes_all(s.class_defs, composed()) {
        lemma_class_filed(s.class_defs, name, class, composed());
    }
    lemma_new_code(b, s, s.define_class(name, class));
}

pub broadcast proof fn step_global_slot(b: CompilerView, s: CompilerView, name: Seq<char>)
    requires
        #[trigger] grows(b, s),
    ensures
        grows(b, (#[trigger] s.global_slot(name)).0),
{
    reveal(CompilerView::global_slot);
    reveal(CompilerView::fail);
    lemma_same(b, s, s.global_slot(name).0);
}

pub broadcast proof fn step_local_slot(b: CompilerView, s: CompilerView, name: Seq<char>)
    requires
        #[trigger] grows(b, s),
    ensures
        grows(b, (#[trigger] s.local_slot(name)).0),
{
    reveal(CompilerView::local_slot);
    lemma_same(b, s, s.local_slot(name).0);
}

pub broadcast proof fn step_binding_slot(b: CompilerView, s: CompilerView, name: Seq<char>)
    requires
        #[trigger] grows(b, s),
    ensures
        grows(b, (#[trigger] s.binding_slot(name)).0),
{
    broadcast use {step_local_slot, step_global_slot};

    reveal(CompilerView::binding_slot);
}

pub broadcast proof fn step_name_slot(b: CompilerView, s: CompilerView, name: Seq<char>)
    requires
        #[trigger] grows(b, s),
    ensures
        grows(b, (#[trigger] s.name_slot(name)).0),
{
    broadcast use step_global_slot;

    reveal(CompilerView::name_slot);
}

pub broadcast proof fn step_add_constant(b: CompilerView, s: CompilerView, obj: ObjectView)
    requires
        #[trigger] grows(b, s),
        s.err is None ==> object_all(obj, composed()),
    ensures
        grows(b, (#[trigger] s.add_constant(obj)).0),
{
    reveal(CompilerView::add_constant);
    lemma_new_code(b, s, s.add_constant(obj).0);
}

pub broadcast proof fn step_add_string(b: CompilerView, s: CompilerView, text: Seq<char>)
    requires
        #[trigger] grows(b, s),
    ensures
        grows(b, (#[trigger] s.add_string(text)).0),
{
    reveal(CompilerView::add_string);
    reveal(CompilerView::add_constant);
    lemma_new_code(b, s, s.add_string(text).0);
}

pub broadcast proof fn step_add_int(b: CompilerView, s: CompilerView, v: i64)
    requires
        #[trigger] grows(b, s),
    ensures
        grows(b, (#[trigger] s.add_int(v)).0),
{
    reveal(CompilerView::add_int);
    reveal(CompilerView::add_constant);
    lemma_new_code(b, s, s.add_int(v).0);
}

pub broadcast proof fn step_add_float(b: CompilerView, s: CompilerView, bits: u64)
    requires
        #[trigger] grows(b, s),
    ensures
        grows(b, (#[trigger] s.add_float(bits)).0),
{
    reveal(CompilerView::add_float);
    reveal(CompilerView::add_constant);
    lemma_new_code(b, s, s.add_float(bits).0);
}

pub broadcast proof fn step_push_object(b: CompilerView, s: CompilerView, obj: ObjectView)
    requires
        #[trigger] grows(b, s),
        s.err is None ==> object_all(obj, composed()),
    ensures
        grows(b, #[trigger] s.push_object(obj)),
{
    broadcast use {step_add_constant, step_emit1};

    reveal(CompilerView::push_object);
}

pub broadcast proof fn step_push_int(b: CompilerView, s: CompilerView, v: i64)
    requires
        #[trigger] grows(b, s),
    ensures
        grows(b, #[trigger] s.push_int(v)),
{
    broadcast use {step_add_int, step_emit1};

    reveal(CompilerView::push_int);
}

pub broadcast proof fn step_push_float(b: CompilerView, s: CompilerView, bits: u64)
    requires
        #[trigger] grows(b, s),
    ensures
        grows(b, #[trigger] s.push_float(bits)),
{
    broadcast use {step_add_float, step_emit1};

    reveal(CompilerView::push_float);
}

pub broadcast proof fn step_push_string(b: CompilerView, s: CompilerView, text: Seq<char>)
    requires
        #[trigger] grows(b, s),
    ensures
        grows(b, #[trigger] s.push_string(text)),
{
    broadcast use {step_add_string, step_emit1};

    reveal(CompilerView::push_string);
}

pub broadcast proof fn step_load(b: CompilerView, s: CompilerView, slot: Slot)
    requires
        #[trigger] grows(b, s),
    ensures
        grows(b, #[trigger] s.load(slot)),
{
    broadcast use step_emit1;

    reveal(CompilerView::load);
}

pub broadcast proof fn step_store(b: CompilerView, s: CompilerView, slot: Slot)
    requires
        #[trigger] grows(b, s),
    ensures
        grows(b, #[trigger] s.store(slot)),
{
    broadcast use step_emit1;

    reveal(CompilerView::store);
}

pub broadcast proof fn step_assign_top(b: CompilerView, s: CompilerView, name: Seq<char>)
    requires
        #[trigger] grows(b, s),
    ensures
        grows(b, #[trigger] s.assign_top(name)),
{
    broadcast use {step_binding_slot, step_emit1};

    reveal(CompilerView::assign_top);
}

pub broadcast proof fn step_assign_target(b: CompilerView, s: CompilerView, name: Seq<char>)
    requires
        #[trigger] grows(b, s),
    ensures
        grows(b, #[trigger] s.assign_target(name)),
{
    broadcast use {step_fail, step_assign_top};

    reveal(CompilerView::assign_target);
}

pub broadcast proof fn step_push_name(b: CompilerView, s: CompilerView, name: Seq<char>)
    requires
        #[trigger] grows(b, s),
    ensures
        grows(b, #[trigger] s.push_name(name)),
{
    broadcast use {step_emit1, step_push_object, step_global_slot, step_fail};

    reveal(CompilerView::push_name);
    if let Some(m) = global_member(name) {
        let (realm, obj) = member_object(s.realm, m);
        assert(!(obj is Function) && !(obj is Class));
        lemma_same(b, s, CompilerView { realm, ..s });
    }
}

pub broadcast proof fn step_get_property(b: CompilerView, s: CompilerView, prop: Seq<char>)
    requires
        #[trigger] grows(b, s),
    ensures
        grows(b, #[trigger] s.get_property(prop)),
{
    broadcast use {step_add_string, step_after_cache_slot, step_emit};

    reveal(CompilerView::get_property);
}

pub broadcast proof fn step_push_property(
    b: CompilerView,
    s: CompilerView,
    name: Seq<char>,
    prop: Seq<char>,
)
    requires
        #[trigger] grows(b, s),
    ensures
        grows(b, #[trigger] s.push_property(name, prop)),
{
    broadcast use {
        step_add_string,
        step_after_cache_slot,
        step_emit,
        step_push_name,
        step_get_property,
    };

    reveal(CompilerView::push_property);
}

pub broadcast proof fn step_declare_null(b: CompilerView, s: CompilerView, name: Seq<char>)
    requires
        #[trigger] grows(b, s),
    ensures
        grows(b, #[trigger] s.declare_null(name)),
{
    broadcast use {step_binding_slot, step_emit0, step_emit1, step_global_slot};

    reveal(CompilerView::declare_null);
    lemma_same(b, s, CompilerView { elided: None, ..s });
}

pub broadcast proof fn step_set_name(b: CompilerView, s: CompilerView, name: Seq<char>)
    requires
        #[trigger] grows(b, s),
    ensures
        grows(b, #[trigger] s.set_name(name)),
{
    broadcast use {step_name_slot, step_store, step_load};

    reveal(CompilerView::set_name);
}

pub broadcast proof fn step_step_name(
    b: CompilerView,
    s: CompilerView,
    name: Seq<char>,
    operator: Seq<char>,
)
    requires
        #[trigger] grows(b, s),
    ensures
        grows(b, #[trigger] s.step_name(name, operator)),
{
    broadcast use {step_fail, step_name_slot, step_load, step_push_int, step_emit0, step_store};

    reveal(CompilerView::step_name);
}

pub broadcast proof fn step_push_element(
    b: CompilerView,
    s: CompilerView,
    source: Seq<char>,
    i: int,
)
    requires
        #[trigger] grows(b, s),
    ensures
        grows(b, #[trigger] s.push_element(source, i)),
{
    broadcast use {step_push_name, step_push_int, step_emit0};

    reveal(CompilerView::push_element);
}

pub broadcast proof fn step_push_rest(b: CompilerView, s: CompilerView, source: Seq<char>, i: int)
    requires
        #[trigger] grows(b, s),
    ensures
        grows(b, #[trigger] s.push_rest(source, i)),
{
    broadcast use {step_push_name, step_push_int, step_emit0};

    reveal(CompilerView::push_rest);
}

// Loops and exceptions

/// A state with other lists of loops and `try` blocks.
proof fn lemma_stacks(b: CompilerView, s: CompilerView, t: CompilerView)
    requires
        grows(b, s),
        t == (CompilerView { loop_stack: t.loop_stack, try_stack: t.try_stack, ..s }),
        forall|i: int| 0 <= i < t.loop_stack.len() ==> loop_sound(s, #[trigger] t.loop_stack[i]),
        forall|i: int| 0 <= i < t.try_stack.len() ==> try_sound(s, #[trigger] t.try_stack[i]),
    ensures
        grows(b, t),
{
    reveal(grows);
    reveal(is_sound);
    reveal(is_jump);
    assert forall|p: usize, offset: int| #[trigger] is_jump(s, p, offset) == is_jump(
        t,
        p,
        offset,
    ) by {}
    assert forall|i: int| 0 <= i < t.loop_stack.len() implies loop_sound(
        t,
        #[trigger] t.loop_stack[i],
    ) by {
        assert(loop_sound(s, t.loop_stack[i]));
    }
    assert forall|i: int| 0 <= i < t.try_stack.len() implies try_sound(
        t,
        #[trigger] t.try_stack[i],
    ) by {
        assert(try_sound(s, t.try_stack[i]));
    }
}

proof fn lemma_stacks_sound(b: CompilerView, s: CompilerView)
    requires
        grows(b, s),
    ensures
        forall|i: int| 0 <= i < s.loop_stack.len() ==> loop_sound(s, #[trigger] s.loop_stack[i]),
        forall|i: int| 0 <= i < s.try_stack.len() ==> try_sound(s, #[trigger] s.try_stack[i]),
        grows(s, s),
{
    reveal(grows);
    reveal(is_sound);
}

pub broadcast proof fn step_open_loop(
    b: CompilerView,
    s: CompilerView,
    label: Option<Seq<char>>,
    continue_target: usize,
)
    requires
        #[trigger] grows(b, s),
    ensures
        grows(b, #[trigger] s.open_loop(label, continue_target)),
{
    reveal(CompilerView::open_loop);
    lemma_stacks_sound(b, s);
    lemma_stacks(b, s, s.open_loop(label, continue_target));
}

pub broadcast proof fn step_continue_here(b: CompilerView, s: CompilerView)
    requires
        #[trigger] grows(b, s),
    ensures
        grows(b, #[trigger] s.continue_here()),
{
    reveal(CompilerView::continue_here);
    lemma_stacks_sound(b, s);
    if s.loop_stack.len() > 0 {
        assert(loop_sound(s, s.loop_stack[s.loop_stack.len() - 1]));
    }
    lemma_stacks(b, s, s.continue_here());
}

pub broadcast proof fn step_close_loop(b: CompilerView, s: CompilerView, end: usize)
    requires
        #[trigger] grows(b, s),
    ensures
        grows(b, #[trigger] s.close_loop(end)),
{
    broadcast use {step_patch_all, jumps_stay};

    reveal(CompilerView::close_loop);
    lemma_stacks_sound(b, s);
    if s.loop_stack.len() > 0 {
        let t = CompilerView { loop_stack: s.loop_stack.drop_last(), ..s };
        assert(loop_sound(s, s.loop_stack[s.loop_stack.len() - 1]));
        lemma_stacks(b, s, t);
        lemma_stacks(s, s, t);
        lemma_grows_sound(s, t);
    }
}

pub broadcast proof fn step_close_switch(b: CompilerView, s: CompilerView, end: usize)
    requires
        #[trigger] grows(b, s),
    ensures
        grows(b, #[trigger] s.close_switch(end)),
{
    broadcast use {step_patch_all, jumps_stay, step_fail};

    reveal(CompilerView::close_switch);
    lemma_stacks_sound(b, s);
    if s.loop_stack.len() > 0 {
        let n = s.loop_stack.len();
        let t = CompilerView { loop_stack: without_switch(s.loop_stack), ..s };
        assert(loop_sound(s, s.loop_stack[n - 1]));
        assert forall|i: int| 0 <= i < t.loop_stack.len() implies loop_sound(
            s,
            #[trigger] t.loop_stack[i],
        ) by {
            assert(loop_sound(s, s.loop_stack[i]));
        }
        lemma_stacks(b, s, t);
        lemma_stacks(s, s, t);
        lemma_grows_sound(s, t);
        assert(are_jumps(t, s.loop_stack[n - 1].break_positions));
    }
}

pub broadcast proof fn step_jump_from_loop(
    b: CompilerView,
    s: CompilerView,
    label: Option<Seq<char>>,
    is_break: bool,
)
    requires
        #[trigger] grows(b, s),
    ensures
        grows(b, #[trigger] s.jump_from_loop(label, is_break)),
{
    broadcast use {step_emit1, step_fail};

    reveal(CompilerView::jump_from_loop);
    let pos = s.here();
    let t = s.emit1(Opcode::OpJump, PLACEHOLDER);
    assert(is_jump(t, pos, 0));
    lemma_stacks_sound(b, t);
    if let Some(n) = loop_index(t.loop_stack, label, t.loop_stack.len() as int) {
        lemma_loop_index(t.loop_stack, label, t.loop_stack.len() as int);
        assert(loop_sound(t, t.loop_stack[n]));
        lemma_stacks(b, t, s.jump_from_loop(label, is_break));
    }
}

proof fn lemma_loop_index(loops: Seq<LoopView>, label: Option<Seq<char>>, n: int)
    requires
        n <= loops.len(),
    ensures
        loop_index(loops, label, n) matches Some(i) ==> 0 <= i < n,
    decreases n,
{
    if n > 0 {
        lemma_loop_index(loops, label, n - 1);
    }
}

pub broadcast proof fn step_open_try(b: CompilerView, s: CompilerView, exception: Seq<char>)
    requires
        #[trigger] grows(b, s),
    ensures
        grows(b, #[trigger] s.open_try(exception)),
{
    reveal(CompilerView::open_try);
    lemma_stacks_sound(b, s);
    lemma_stacks(b, s, s.open_try(exception));
}

pub broadcast proof fn step_close_try(b: CompilerView, s: CompilerView)
    requires
        #[trigger] grows(b, s),
    ensures
        grows(b, #[trigger] s.close_try()),
{
    broadcast use {step_patch_all, jumps_stay, step_fail};

    reveal(CompilerView::close_try);
    lemma_stacks_sound(b, s);
    if s.try_stack.len() > 0 {
        let t = CompilerView { try_stack: s.try_stack.drop_last(), ..s };
        assert(try_sound(s, s.try_stack[s.try_stack.len() - 1]));
        lemma_stacks(b, s, t);
        lemma_stacks(s, s, t);
        lemma_grows_sound(s, t);
    }
}

pub broadcast proof fn step_add_throw(b: CompilerView, s: CompilerView, jump: usize)
    requires
        #[trigger] grows(b, s),
        is_jump(s, jump, 0),
    ensures
        grows(b, #[trigger] s.add_throw(jump)),
{
    reveal(CompilerView::add_throw);
    lemma_stacks_sound(b, s);
    let n = s.try_stack.len() - 1;
    if n >= 0 {
        assert(try_sound(s, s.try_stack[n]));
    }
    lemma_stacks(b, s, s.add_throw(jump));
}

pub broadcast proof fn step_throw_to_handler(b: CompilerView, s: CompilerView)
    requires
        #[trigger] grows(b, s),
    ensures
        grows(b, #[trigger] s.throw_to_handler()),
{
    broadcast use {step_after_temp, step_assign_top, step_emit1, step_add_throw, step_emit0};

    reveal(CompilerView::throw_to_handler);
}

pub broadcast proof fn step_throw_top(b: CompilerView, s: CompilerView)
    requires
        #[trigger] grows(b, s),
    ensures
        grows(b, #[trigger] s.throw_top()),
{
    broadcast use {step_emit0, step_throw_to_handler};

    reveal(CompilerView::throw_top);
}

// Unused results

pub broadcast proof fn step_jump_back(b: CompilerView, s: CompilerView, start: usize)
    requires
        #[trigger] grows(b, s),
    ensures
        grows(b, #[trigger] s.jump_back(start)),
{
    broadcast use step_emit1;

    reveal(CompilerView::jump_back);
    if s.last_opcode == Some(Opcode::OpIncrementGlobal) {
        let t = s.jump_back(start);
        let pos = s.last_position as int;
        let op = Opcode::OpIncrementGlobalAndJump;
        if t.err is None && is_complete(s.instructions) && last_sound(s) {
            assert(length_of(op) == length_of(Opcode::OpIncrementGlobal) + 2) by {
                reveal_with_fuel(widths_total, 5);
            }
            lemma_lengthened(
                s.instructions,
                pos,
                op,
                (start as u16 / 256) as u8,
                (start as u16 % 256) as u8,
            );
            lemma_before_last(s);
        }
        lemma_new_code(b, s, t);
    }
}

pub broadcast proof fn step_remove_last_pop(b: CompilerView, s: CompilerView)
    requires
        #[trigger] grows(b, s),
    ensures
        grows(b, #[trigger] s.remove_last_pop()),
{
    broadcast use step_emit1;

    reveal(CompilerView::remove_last_pop);
    lemma_same(b, s, CompilerView { elided: None, ..s });
    if s.last_opcode == Some(Opcode::OpPop) {
        let t = s.remove_last_pop();
        if t.err is None && is_complete(s.instructions) && last_sound(s) {
            lemma_cut(s.instructions, s.last_position as int);
            lemma_before_last(s);
        }
        lemma_new_code(b, s, t);
    }
}

/// The jumps of code stand before its last instruction, if that may still change.
proof fn lemma_before_last(s: CompilerView)
    requires
        is_complete(s.instructions),
        last_sound(s),
        s.last_opcode is Some,
        is_passing(s.last_opcode->0),
    ensures
        forall|p: int, offset: int|
            #![trigger has_word(s.instructions, p, offset)]
            has_word(s.instructions, p, offset) && !is_passing_byte(s.instructions[p]) ==> p
                < s.last_position,
{
    let pos = s.last_position as int;
    assert forall|p: int, offset: int|
        #![trigger has_word(s.instructions, p, offset)]
        has_word(s.instructions, p, offset) && !is_passing_byte(s.instructions[p]) implies p
        < pos by {
        if p > pos {
            lemma_between(s.instructions, 0, pos, p);
            lemma_length(s.instructions, pos, s.last_opcode->0);
        }
    }
}

pub broadcast proof fn step_drop_result(
    b: CompilerView,
    s: CompilerView,
    is_name_assignment: bool,
    statement_start: usize,
)
    requires
        #[trigger] grows(b, s),
    ensures
        grows(b, #[trigger] s.drop_result(is_name_assignment, statement_start)),
{
    broadcast use step_emit0;

    reveal(CompilerView::drop_result);
    reveal(CompilerView::ends_in_store_and_load);
    reveal(CompilerView::without_last_load);
    let t = s.drop_result(is_name_assignment, statement_start);
    let pos = s.last_position as int;
    if t.err is None && is_complete(s.instructions) && last_sound(s) {
        if s.last_opcode == Some(Opcode::OpSetLocalProperty) {
            lemma_length(s.instructions, pos, Opcode::OpSetLocalProperty);
            lemma_recoded(s.instructions, pos, Opcode::OpSetLocalPropertyPop);
            lemma_before_last(s);
        } else if s.last_opcode == Some(Opcode::OpSetGlobalProperty) {
            lemma_length(s.instructions, pos, Opcode::OpSetGlobalProperty);
            lemma_recoded(s.instructions, pos, Opcode::OpSetGlobalPropertyPop);
            lemma_before_last(s);
        } else if s.last_opcode == Some(Opcode::OpGetLocal) || s.last_opcode == Some(
            Opcode::OpGetGlobal,
        ) {
            lemma_cut(s.instructions, pos);
            lemma_before_last(s);
        }
    }
    if t != s.emit0(Opcode::OpPop) {
        lemma_new_code(b, s, t);
    }
}

pub broadcast proof fn step_finish_function(b: CompilerView, s: CompilerView)
    requires
        #[trigger] grows(b, s),
    ensures
        grows(b, #[trigger] s.finish_function()),
{
    broadcast use {step_remove_last_pop, step_emit0};

    reveal(CompilerView::finish_function);
}

pub broadcast proof fn step_after_function(b: CompilerView, s: CompilerView, inner: CompilerView)
    requires
        #[trigger] grows(b, s),
    ensures
        grows(b, #[trigger] s.after_function(inner)),
        s.after_function(inner).err is None ==> inner.err is None,
{
    reveal(CompilerView::after_function);
    lemma_same(b, s, s.after_function(inner));
}

pub broadcast proof fn step_function_scope(s: CompilerView, parameters: Seq<Seq<char>>)
    ensures
        ({
            let t = #[trigger] s.function_scope(parameters);
            grows(t, t)
        }),
{
    reveal(CompilerView::function_scope);
    reveal(is_sound);
    reveal(grows);
}

/// The code of a function consists of whole instructions if the state that holds it is
/// sound.
pub broadcast proof fn step_function(
    b: CompilerView,
    inner: CompilerView,
    num_parameters: usize,
    rest: Option<usize>,
    takes_this: bool,
    is_async: bool,
    is_generator: bool,
)
    requires
        #[trigger] grows(b, inner),
    ensures
        inner.err is None ==> is_composed(
            #[trigger] inner.function(num_parameters, rest, takes_this, is_async, is_generator),
        ),
{
    reveal(CompilerView::function);
    reveal(grows);
    reveal(is_sound);
    if inner.err is None {
        lemma_composed(
            inner.function(num_parameters, rest, takes_this, is_async, is_generator),
        );
    }
}

/// A state in which nothing has been generated is sound.
pub proof fn lemma_start_is_sound(s: CompilerView)
    requires
        s.instructions.len() == 0,
        s.constants.len() == 0,
        s.loop_stack.len() == 0,
        s.try_stack.len() == 0,
        s.last_opcode is None,
        s.class_defs == Names::<ClassView>::empty(),
    ensures
        is_sound(s),
{
    reveal(is_sound);
}

/// What a sound state says of its code.
pub proof fn lemma_sound_code(s: CompilerView)
    requires
        is_sound(s),
    ensures
        s.err is None ==> is_complete(s.instructions) && are_composed(s.constants),
{
    reveal(is_sound);
}

/// The classes that a state knows are in order.
pub proof fn lemma_sound_classes(s: CompilerView)
    requires
        is_sound(s),
    ensures
        s.err is None ==> classes_all(s.class_defs, composed()),
{
    reveal(is_sound);
}

pub broadcast proof fn step_declare_all(
    b: CompilerView,
    s: CompilerView,
    names: Seq<Seq<char>>,
    i: int,
)
    requires
        #[trigger] grows(b, s),
    ensures
        grows(b, #[trigger] declare_all(s, names, i)),
    decreases names.len() - i,
{
    broadcast use step_binding_slot;

    reveal(declare_all);
    if 0 <= i < names.len() {
        step_declare_all(b, s.binding_slot(names[i]).0, names, i + 1);
    }
}

// Peephole patterns

pub broadcast proof fn step_number_constant(b: CompilerView, s: CompilerView, e: Expression, negate: bool)
    requires
        #[trigger] grows(b, s),
    ensures
        grows(b, (#[trigger] number_constant(s, e, negate)).0),
{
    broadcast use {step_add_int, step_add_float};

    reveal(number_constant);
}

pub broadcast proof fn step_fuse_compare(b: CompilerView, s: CompilerView, e: Expression)
    requires
        #[trigger] grows(b, s),
    ensures
        grows(b, (#[trigger] fuse_compare(s, e)).0),
        fuse_compare(s, e).1 matches Some(found) ==> jump_offset(found.2) == Some(4int),
{
    broadcast use step_number_constant;

    reveal(fuse_compare);
}

pub broadcast proof fn step_fuse_mod_eq(b: CompilerView, s: CompilerView, e: Expression)
    requires
        #[trigger] grows(b, s),
    ensures
        grows(b, (#[trigger] fuse_mod_eq(s, e)).0),
{
    broadcast use step_number_constant;

    reveal(fuse_mod_eq);
}

pub broadcast proof fn step_fuse_increment(b: CompilerView, s: CompilerView, e: Expression)
    requires
        #[trigger] grows(b, s),
    ensures
        grows(b, (#[trigger] fuse_increment(s, e)).0),
{
    broadcast use step_number_constant;

    reveal(fuse_increment);
}

pub broadcast proof fn step_fuse_property_increment(b: CompilerView, s: CompilerView, e: Expression)
    requires
        #[trigger] grows(b, s),
    ensures
        grows(b, (#[trigger] fuse_property_increment(s, e)).0),
{
    broadcast use {step_number_constant, step_add_string, step_after_cache_slot};

    reveal(fuse_property_increment);
}

pub broadcast proof fn step_fuse_property_sum(b: CompilerView, s: CompilerView, e: Expression)
    requires
        #[trigger] grows(b, s),
    ensures
        grows(b, (#[trigger] fuse_property_sum(s, e)).0),
{
    broadcast use {step_add_string, step_after_cache_slot};

    reveal(fuse_property_sum);
}

} // verus!
