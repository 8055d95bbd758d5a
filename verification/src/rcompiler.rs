//! The register compiler's state and its elementary steps.
use std::rc::Rc;

use vstd::prelude::*;

use crate::ast::{Expression, Statement, VariableKind};
use crate::builtins::builtin_global_object;
use crate::bytecode::{Bytecode, BytecodeView};
use crate::code::{high_byte, low_byte};
use crate::codegen::{
    loop_index, next16, with_names, with_parameters, without_switch, LoopView, Slot, GLOBALS_SIZE,
    PLACEHOLDER,
};
use crate::compiler::{
    class_table_view, empty_cache, find_increment, insert_class, label_text, texts,
};
use crate::intern::intern_str;
use crate::names::{
    name_index_entries, word_index_entries, NameIndex, NameMap, NameSet, Names, WordIndex,
};
use crate::object::{
    class_view, function_view, object_view, objects_view, ClassObject, CompiledFunctionObject,
    Object, VmCell,
};
use crate::rcode::{rmake, ROp};
use crate::rcodegen::{
    captured_slots, compound_rop, deferring, infix_rop, next_free_slot, nth_reg, numeric_constant,
    rfuse_compare, rfuse_increment, rfuse_mod_eq, without_captured, RTryView, RView,
};
use crate::realm::{Realm, RealmView};
use crate::rules::label_view;
use crate::text::{concat, concat3, str_eq, to_decimal};

verus! {

/// A loop or switch that is being compiled.
struct LoopContext {
    label: Option<String>,
    continue_target: usize,
    break_positions: Vec<usize>,
    continue_positions: Vec<usize>,
}

/// A `try` or `catch` block that is being compiled. Where there is a `finally`
/// block, a return in it is deferred: its value is kept in one hidden variable,
/// a flag is set in another, and control goes to the `finally` block first.
struct TryContext {
    exception_temp: String,
    throw_jumps: Vec<usize>,
    deferred_return: Option<(String, String)>,
    return_jumps: Vec<usize>,
}

/// The register compiler's state.
pub struct RCompiler {
    error: Option<String>,
    realm: Realm,
    instructions: Vec<u8>,
    constants: Vec<Object>,
    globals: NameMap<u16>,
    next_global: u32,
    /// Maps local variable names to register indices.
    locals: NameMap<u16>,
    class_defs: NameMap<ClassObject>,
    /// Number of registers allocated for named locals.
    num_locals: u16,
    /// Next temporary register.
    next_temp: u16,
    /// Highest register used.
    max_reg: u16,
    is_function_scope: bool,
    loop_stack: Vec<LoopContext>,
    temp_counter: u64,
    try_stack: Vec<TryContext>,
    // Constants that were added already, by value
    constant_strings: NameIndex,
    constant_ints: WordIndex,
    constant_floats: WordIndex,
    // Inline cache slot counter
    next_cache_slot: u16,
    /// Names that nested functions refer to: only these get global slots as
    /// well. All names do when `None`.
    captured_names: Option<NameSet>,
    // Names declared with `const`: assignment to these is an error
    const_bindings: NameSet,
    /// Global slots that were made because a parameter hides a captured name of
    /// the enclosing scope. A closure that refers to one takes its value along.
    param_shadow_slots: WordIndex,
}

spec fn loop_view(l: LoopContext) -> LoopView {
    LoopView {
        label: label_view(l.label),
        continue_target: l.continue_target,
        break_positions: l.break_positions@,
        continue_positions: l.continue_positions@,
    }
}

spec fn loops_view(v: Seq<LoopContext>) -> Seq<LoopView> {
    Seq::new(v.len(), |i: int| loop_view(v[i]))
}

/// The names of a pair of hidden variables.
pub open spec fn pair_view(pair: Option<(String, String)>) -> Option<(Seq<char>, Seq<char>)> {
    match pair {
        Some((a, b)) => Some((a@, b@)),
        None => None,
    }
}

spec fn try_view(t: TryContext) -> RTryView {
    RTryView {
        exception_temp: t.exception_temp@,
        throw_jumps: t.throw_jumps@,
        deferred_return: pair_view(t.deferred_return),
        return_jumps: t.return_jumps@,
    }
}

spec fn tries_view(v: Seq<TryContext>) -> Seq<RTryView> {
    Seq::new(v.len(), |i: int| try_view(v[i]))
}

spec fn captured_view(names: Option<NameSet>) -> Option<Set<Seq<char>>> {
    match names {
        Some(set) => Some(set@),
        None => None,
    }
}

spec fn slots_view(t: WordIndex) -> Set<u16> {
    Set::new(|slot: u16| word_index_entries(t).dom().contains(slot as u64))
}

impl View for RCompiler {
    type V = RView;

    closed spec fn view(&self) -> RView {
        RView {
            err: label_view(self.error),
            realm: self.realm@,
            instructions: self.instructions@,
            constants: objects_view(self.constants),
            globals: self.globals@,
            next_global: self.next_global,
            locals: self.locals@,
            class_defs: class_table_view(self.class_defs),
            num_locals: self.num_locals,
            next_temp: self.next_temp,
            max_reg: self.max_reg,
            is_function_scope: self.is_function_scope,
            loop_stack: loops_view(self.loop_stack@),
            temp_counter: self.temp_counter,
            try_stack: tries_view(self.try_stack@),
            string_slots: name_index_entries(self.constant_strings),
            int_slots: word_index_entries(self.constant_ints),
            float_slots: word_index_entries(self.constant_floats),
            next_cache_slot: self.next_cache_slot,
            captured: captured_view(self.captured_names),
            const_bindings: self.const_bindings@,
            shadow_slots: slots_view(self.param_shadow_slots),
        }
    }
}

impl RCompiler {
    pub fn new() -> (c: Self)
        ensures
            c@ == RView::start(RealmView::empty()),
    {
        RCompiler::in_realm(Realm::new())
    }

    /// A compiler for a program that shares symbols with others.
    pub fn in_realm(realm: Realm) -> (c: Self)
        ensures
            c@ == RView::start(realm@),
    {
        let c = RCompiler {
            error: None,
            realm,
            instructions: Vec::new(),
            constants: Vec::new(),
            globals: NameMap::new(),
            next_global: 0,
            locals: NameMap::new(),
            class_defs: NameMap::new(),
            num_locals: 0,
            next_temp: 0,
            max_reg: 0,
            is_function_scope: false,
            loop_stack: Vec::new(),
            temp_counter: 0,
            try_stack: Vec::new(),
            constant_strings: NameIndex::new(),
            constant_ints: WordIndex::new(),
            constant_floats: WordIndex::new(),
            next_cache_slot: 0,
            captured_names: None,
            const_bindings: NameSet::new(),
            param_shadow_slots: WordIndex::new(),
        };
        assert(objects_view(c.constants) =~= Seq::empty());
        assert(c@ =~= RView::start(realm@));
        c
    }

    /// A compiler for code that can refer to the globals of a program compiled
    /// before.
    pub fn with_globals(realm: Realm, globals: &NameMap<u16>) -> (c: Self)
        ensures
            c@ == (RView {
                globals: globals@,
                next_global: next_free_slot(globals@, globals@.order.len() as int),
                ..RView::start(realm@)
            }),
    {
        let mut c = RCompiler::in_realm(realm);
        c.globals = globals.copy();
        c.next_global = find_free_slot(globals);
        c
    }

    /// Treat the program like the body of a function, so that its variables
    /// become registers, of which only those in `captured` get global slots.
    pub(crate) fn as_function(&mut self, captured: Option<NameSet>)
        ensures
            final(self)@ == (RView {
                is_function_scope: true,
                captured: match captured {
                    Some(set) => Some(set@),
                    None => None,
                },
                ..old(self)@
            }),
    {
        self.is_function_scope = true;
        self.captured_names = captured;
    }

    /// Reject the program, unless it was rejected already.
    pub(crate) fn fail(&mut self, message: String)
        ensures
            final(self)@ == old(self)@.fail(message@),
    {
        proof {
            reveal(RView::fail);
        }
        if self.error.is_none() {
            self.error = Some(message);
        }
    }

    /// Whether the program was rejected.
    pub(crate) fn failed(&self) -> (r: bool)
        ensures
            r == self@.err is Some,
    {
        self.error.is_some()
    }

    /// The position of the next instruction.
    pub(crate) fn here(&self) -> (r: usize)
        ensures
            r == self@.here(),
    {
        proof {
            reveal(RView::here);
        }
        self.instructions.len()
    }

    /// Whether a function's code is being compiled.
    pub(crate) fn in_function(&self) -> (r: bool)
        ensures
            r == self@.is_function_scope,
    {
        self.is_function_scope
    }

    /// The register of a local of that name.
    pub(crate) fn local_of(&self, name: &str) -> (r: Option<u16>)
        ensures
            r == self@.locals.get(name@),
    {
        match self.locals.get(name) {
            Some(r) => Some(*r),
            None => None,
        }
    }

    /// The slot of a global of that name.
    pub(crate) fn global_of(&self, name: &str) -> (r: Option<u16>)
        ensures
            r == self@.globals.get(name@),
    {
        match self.globals.get(name) {
            Some(r) => Some(*r),
            None => None,
        }
    }

    /// Whether a name must not be assigned to.
    pub(crate) fn is_const(&self, name: &str) -> (r: bool)
        ensures
            r == self@.const_bindings.contains(name@),
    {
        self.const_bindings.contains(name)
    }

    /// Whether there is no enclosing `try` block.
    pub(crate) fn outside_try(&self) -> (r: bool)
        ensures
            r == (self@.try_stack.len() == 0),
    {
        self.try_stack.len() == 0
    }

    // Instructions

    /// Append an instruction. Returns its position.
    pub(crate) fn emit(&mut self, op: ROp, operands: &[u16]) -> (pos: usize)
        ensures
            final(self)@ == old(self)@.emit(op, operands@),
            pos == old(self)@.here(),
    {
        proof {
            reveal(RView::emit);
            reveal(RView::here);
        }
        let pos: usize = self.instructions.len();
        let mut bytes = rmake(op, operands);
        self.instructions.append(&mut bytes);
        pos
    }

    pub(crate) fn emit0(&mut self, op: ROp) -> (pos: usize)
        ensures
            final(self)@ == old(self)@.emit(op, seq![]),
            pos == old(self)@.here(),
    {
        let none: [u16; 0] = [];
        assert(none@ =~= seq![]);
        self.emit(op, &none)
    }

    pub(crate) fn emit1(&mut self, op: ROp, a: u16) -> (pos: usize)
        ensures
            final(self)@ == old(self)@.emit(op, seq![a]),
            pos == old(self)@.here(),
    {
        let one = [a];
        assert(one@ =~= seq![a]);
        self.emit(op, &one)
    }

    pub(crate) fn emit2(&mut self, op: ROp, a: u16, b: u16) -> (pos: usize)
        ensures
            final(self)@ == old(self)@.emit(op, seq![a, b]),
            pos == old(self)@.here(),
    {
        let two = [a, b];
        assert(two@ =~= seq![a, b]);
        self.emit(op, &two)
    }

    pub(crate) fn emit3(&mut self, op: ROp, a: u16, b: u16, c: u16) -> (pos: usize)
        ensures
            final(self)@ == old(self)@.emit(op, seq![a, b, c]),
            pos == old(self)@.here(),
    {
        let three = [a, b, c];
        assert(three@ =~= seq![a, b, c]);
        self.emit(op, &three)
    }

    pub(crate) fn emit4(&mut self, op: ROp, a: u16, b: u16, c: u16, d: u16) -> (pos: usize)
        ensures
            final(self)@ == old(self)@.emit(op, seq![a, b, c, d]),
            pos == old(self)@.here(),
    {
        let four = [a, b, c, d];
        assert(four@ =~= seq![a, b, c, d]);
        self.emit(op, &four)
    }

    pub(crate) fn emit5(&mut self, op: ROp, a: u16, b: u16, c: u16, d: u16, e: u16) -> (pos: usize)
        ensures
            final(self)@ == old(self)@.emit(op, seq![a, b, c, d, e]),
            pos == old(self)@.here(),
    {
        let five = [a, b, c, d, e];
        assert(five@ =~= seq![a, b, c, d, e]);
        self.emit(op, &five)
    }

    /// Set the target of the jump at `op_pos`.
    pub(crate) fn patch_jump(&mut self, op_pos: usize, target: usize)
        ensures
            final(self)@ == old(self)@.patch(op_pos, target),
    {
        proof {
            reveal(RView::patch);
        }
        let len: usize = self.instructions.len();
        if op_pos >= len {
            return ;
        }
        let byte: u8 = self.instructions[op_pos];
        let offset: usize = if byte == ROp::Jump as u8 {
            1
        } else if byte == ROp::JumpIfNot as u8 || byte == ROp::JumpIfTruthy as u8 {
            3
        } else if byte == ROp::TestLtConstJump as u8 || byte == ROp::TestLeConstJump as u8 || byte
            == ROp::IncrementRegAndJump as u8 {
            5
        } else if byte == ROp::ModRegConstStrictEqConstJump as u8 {
            7
        } else {
            return ;
        };
        if len - op_pos <= offset + 1 {
            return ;
        }
        let at: usize = op_pos + offset;
        let operand: u16 = target as u16;
        self.instructions[at] = high_byte(operand);
        self.instructions[at + 1] = low_byte(operand);
    }

    /// Set the target of each of the jumps at `positions`.
    pub(crate) fn patch_jumps(&mut self, positions: &Vec<usize>, target: usize)
        ensures
            final(self)@ == old(self)@.patch_all(positions@, 0, target),
    {
        proof {
            reveal(RView::patch_all);
        }
        let mut i: usize = 0;
        while i < positions.len()
            invariant
                0 <= i <= positions@.len(),
                self@.patch_all(positions@, i as int, target) == old(self)@.patch_all(
                    positions@,
                    0,
                    target,
                ),
            decreases positions@.len() - i,
        {
            proof {
                reveal(RView::patch_all);
            }
            self.patch_jump(positions[i], target);
            i += 1;
        }
    }

    pub(crate) fn make_temp_name(&mut self, prefix: &str) -> (name: String)
        ensures
            name@ == old(self)@.hidden(prefix@),
            final(self)@ == old(self)@.after_name(),
    {
        proof {
            reveal(RView::hidden);
            reveal(RView::after_name);
        }
        let digits = to_decimal(self.temp_counter);
        let name = concat3("__fl_", prefix, "_").concat(digits.as_str());
        self.temp_counter = self.temp_counter.wrapping_add(1);
        name
    }

    pub(crate) fn take_cache_slot(&mut self) -> (slot: u16)
        ensures
            slot == old(self)@.next_cache_slot,
            final(self)@ == old(self)@.after_cache_slot(),
    {
        proof {
            reveal(RView::after_cache_slot);
        }
        let slot: u16 = self.next_cache_slot;
        self.next_cache_slot = slot.wrapping_add(1);
        slot
    }

    // Registers

    /// Allocate a temporary register.
    pub(crate) fn take_temp(&mut self) -> (r: u16)
        ensures
            r == old(self)@.next_temp,
            final(self)@ == old(self)@.take_temp(),
    {
        proof {
            reveal(RView::take_temp);
        }
        let r: u16 = self.next_temp;
        self.next_temp = r.wrapping_add(1);
        if r > self.max_reg {
            self.max_reg = r;
        }
        r
    }

    /// The next temporary register.
    pub(crate) fn save_temps(&self) -> (r: u16)
        ensures
            r == self@.next_temp,
    {
        self.next_temp
    }

    /// Free the temporary registers from `saved` on.
    pub(crate) fn restore_temps(&mut self, saved: u16)
        ensures
            final(self)@ == old(self)@.set_temps(saved),
    {
        proof {
            reveal(RView::set_temps);
        }
        self.next_temp = saved;
    }

    pub(crate) fn free_temps(&mut self)
        ensures
            final(self)@ == old(self)@.free_temps(),
    {
        proof {
            reveal(RView::free_temps);
        }
        self.next_temp = self.num_locals;
    }

    pub(crate) fn copy_reg(&mut self, dst: u16, src: u16)
        ensures
            final(self)@ == old(self)@.copy_reg(dst, src),
    {
        proof {
            reveal(RView::copy_reg);
        }
        if dst != src {
            self.emit2(ROp::Move, dst, src);
        }
    }

    /// Whether a register is that of a named local.
    pub(crate) fn is_local_register(&self, reg: u16) -> (r: bool)
        ensures
            r == self@.is_local_reg(reg),
    {
        proof {
            reveal(RView::is_local_reg);
        }
        let mut i: usize = 0;
        while i < self.locals.len()
            invariant
                0 <= i <= self.locals@.order.len(),
                forall|k: int|
                    0 <= k < i ==> self@.locals.map[#[trigger] self@.locals.order[k]] != reg,
            decreases self.locals@.order.len() - i,
        {
            if *self.locals.value_at(i) == reg {
                proof {
                    reveal(RView::is_local_reg);
                }
                assert(self@.locals.map[self@.locals.order[i as int]] == reg);
                return true;
            }
            i += 1;
        }
        false
    }

    // Constants

    pub(crate) fn add_constant(&mut self, obj: Object) -> (idx: u16)
        ensures
            (final(self)@, idx) == old(self)@.add_constant(object_view(obj)),
    {
        proof {
            reveal(RView::add_constant);
        }
        let idx: u16 = self.constants.len() as u16;
        let ghost before = self.constants;
        let ghost view = object_view(obj);
        self.constants.push(obj);
        assert(objects_view(self.constants) =~= objects_view(before).push(view));
        idx
    }

    pub(crate) fn add_constant_string(&mut self, s: &str) -> (idx: u16)
        ensures
            (final(self)@, idx) == old(self)@.add_string(s@),
    {
        proof {
            reveal(RView::add_constant);
            reveal(RView::add_string);
        }
        match self.constant_strings.get(s) {
            Some(idx) => idx as u16,
            None => {
                let interned = intern_str(&mut self.realm.symbols, s);
                let idx: u16 = self.add_constant(Object::String((*interned).clone()));
                self.constant_strings.insert((*interned).clone(), idx as usize);
                idx
            },
        }
    }

    pub(crate) fn add_constant_int(&mut self, v: i64) -> (idx: u16)
        ensures
            (final(self)@, idx) == old(self)@.add_int(v),
    {
        proof {
            reveal(RView::add_constant);
            reveal(RView::add_int);
        }
        match self.constant_ints.get(v as u64) {
            Some(idx) => idx as u16,
            None => {
                let idx: u16 = self.add_constant(Object::Integer(v));
                self.constant_ints.insert(v as u64, idx as usize);
                idx
            },
        }
    }

    pub(crate) fn add_constant_float(&mut self, bits: u64) -> (idx: u16)
        ensures
            (final(self)@, idx) == old(self)@.add_float(bits),
    {
        proof {
            reveal(RView::add_constant);
            reveal(RView::add_float);
        }
        match self.constant_floats.get(bits) {
            Some(idx) => idx as u16,
            None => {
                let idx: u16 = self.add_constant(Object::Float(bits));
                self.constant_floats.insert(bits, idx as usize);
                idx
            },
        }
    }

    pub(crate) fn load_const(&mut self, dst: u16, idx: u16)
        ensures
            final(self)@ == old(self)@.load_const(dst, idx),
    {
        proof {
            reveal(RView::load_const);
        }
        self.emit2(ROp::LoadConst, dst, idx);
    }

    pub(crate) fn load_object(&mut self, dst: u16, obj: Object)
        ensures
            final(self)@ == old(self)@.load_object(dst, object_view(obj)),
    {
        proof {
            reveal(RView::load_object);
        }
        let idx: u16 = self.add_constant(obj);
        self.load_const(dst, idx);
    }

    pub(crate) fn load_int(&mut self, dst: u16, v: i64)
        ensures
            final(self)@ == old(self)@.load_int(dst, v),
    {
        proof {
            reveal(RView::load_int);
        }
        let idx: u16 = self.add_constant_int(v);
        self.load_const(dst, idx);
    }

    pub(crate) fn load_float(&mut self, dst: u16, bits: u64)
        ensures
            final(self)@ == old(self)@.load_float(dst, bits),
    {
        proof {
            reveal(RView::load_float);
        }
        let idx: u16 = self.add_constant_float(bits);
        self.load_const(dst, idx);
    }

    pub(crate) fn load_string(&mut self, dst: u16, s: &str)
        ensures
            final(self)@ == old(self)@.load_string(dst, s@),
    {
        proof {
            reveal(RView::load_string);
        }
        let idx: u16 = self.add_constant_string(s);
        self.load_const(dst, idx);
    }

    pub(crate) fn load_function(&mut self, dst: u16, f: CompiledFunctionObject)
        ensures
            final(self)@ == old(self)@.load_function(dst, function_view(f)),
    {
        proof {
            reveal(RView::load_function);
        }
        let ghost captures = f.closure_captures@;
        let count: usize = f.closure_captures.len();
        let mut operands: Vec<u16> = Vec::new();
        let mut slots = f.closure_captures.clone();
        let idx: u16 = self.add_constant(Object::CompiledFunction(Box::new(f)));
        if count == 0 {
            self.load_const(dst, idx);
        } else {
            operands.push(dst);
            operands.push(idx);
            operands.push(count as u16);
            operands.append(&mut slots);
            assert(operands@ =~= seq![dst, idx, captures.len() as u16] + captures);
            self.emit(ROp::MakeClosure, operands.as_slice());
        }
    }

    // Variables

    pub(crate) fn ensure_global_slot(&mut self, name: &str) -> (r: u16)
        ensures
            (final(self)@, r) == old(self)@.global_slot(name@),
    {
        proof {
            reveal(RView::global_slot);
        }
        if let Some(idx) = self.globals.get(name) {
            return *idx;
        }
        if self.next_global >= GLOBALS_SIZE {
            self.fail("global symbol table overflow".to_owned());
            return 0;
        }
        let idx: u16 = self.next_global as u16;
        self.globals.insert(name.to_owned(), idx);
        self.next_global += 1;
        idx
    }

    /// Ensure a named local has a register. Returns it.
    pub(crate) fn ensure_local(&mut self, name: &str) -> (r: u16)
        ensures
            (final(self)@, r) == old(self)@.local_reg(name@),
    {
        proof {
            reveal(RView::local_reg);
        }
        if let Some(r) = self.locals.get(name) {
            return *r;
        }
        let r: u16 = if self.next_temp > self.num_locals {
            self.next_temp
        } else {
            self.num_locals
        };
        self.locals.insert(name.to_owned(), r);
        self.num_locals = r.wrapping_add(1);
        self.next_temp = self.num_locals;
        if r > self.max_reg {
            self.max_reg = r;
        }
        r
    }

    pub(crate) fn ensure_binding_slot(&mut self, name: &str) -> (r: Slot)
        ensures
            (final(self)@, r) == old(self)@.binding_slot(name@),
    {
        proof {
            reveal(RView::binding_slot);
        }
        if self.is_function_scope {
            let r: u16 = self.ensure_local(name);
            Slot::Local(r)
        } else {
            let g: u16 = self.ensure_global_slot(name);
            Slot::Global(g)
        }
    }

    /// Whether nested functions may refer to a name.
    pub(crate) fn needs_global(&self, name: &str) -> (r: bool)
        ensures
            r == self@.needs_global(name@),
    {
        proof {
            reveal(RView::needs_global);
        }
        match &self.captured_names {
            Some(set) => set.contains(name),
            None => true,
        }
    }

    pub(crate) fn mirror_local_to_global(&mut self, name: &str, reg: u16)
        ensures
            final(self)@ == old(self)@.mirror(name@, reg),
    {
        proof {
            reveal(RView::mirror);
        }
        if let Some(g) = self.global_of(name) {
            self.emit2(ROp::SetGlobal, g, reg);
        }
    }

    pub(crate) fn mirror_captured(&mut self, name: &str, reg: u16)
        ensures
            final(self)@ == old(self)@.mirror_captured(name@, reg),
    {
        proof {
            reveal(RView::mirror_captured);
        }
        if self.needs_global(name) {
            let g: u16 = self.ensure_global_slot(name);
            self.emit2(ROp::SetGlobal, g, reg);
        }
    }

    pub(crate) fn store_global(&mut self, name: &str, src: u16)
        ensures
            final(self)@ == old(self)@.store_global(name@, src),
    {
        proof {
            reveal(RView::store_global);
        }
        let g: u16 = self.ensure_global_slot(name);
        self.emit2(ROp::SetGlobal, g, src);
    }

    /// Store a register in a name that is declared here.
    pub(crate) fn store_binding(&mut self, name: &str, src: u16)
        ensures
            final(self)@ == old(self)@.store_binding(name@, src),
    {
        proof {
            reveal(RView::store_binding);
        }
        if self.is_function_scope {
            let r: u16 = self.ensure_local(name);
            self.copy_reg(r, src);
            self.mirror_captured(name, r);
        } else {
            self.store_global(name, src);
        }
    }

    pub(crate) fn store_identifier(&mut self, name: &str, src: u16)
        ensures
            final(self)@ == old(self)@.store_name(name@, src),
    {
        proof {
            reveal(RView::store_name);
        }
        if self.is_function_scope {
            let r: u16 = self.ensure_local(name);
            self.copy_reg(r, src);
            self.mirror_local_to_global(name, r);
        } else {
            self.store_global(name, src);
        }
    }

    pub(crate) fn store_target(&mut self, name: &str, src: u16)
        ensures
            final(self)@ == old(self)@.store_target(name@, src),
    {
        proof {
            reveal(RView::store_target);
        }
        if self.is_const(name) {
            self.fail(concat3("Assignment to constant variable '", name, "'"));
        } else {
            self.store_identifier(name, src);
        }
    }

    pub(crate) fn load_identifier_into(&mut self, name: &str, dst: u16)
        ensures
            final(self)@ == old(self)@.load_name(name@, dst),
    {
        proof {
            reveal(RView::load_name);
        }
        if let Some(r) = self.local_of(name) {
            self.copy_reg(dst, r);
            return ;
        }
        if let Some(g) = self.global_of(name) {
            self.emit2(ROp::GetGlobal, dst, g);
            return ;
        }
        match builtin_global_object(&mut self.realm, name) {
            Some(obj) => self.load_object(dst, obj),
            None => if self.is_function_scope {
                let g: u16 = self.ensure_global_slot(name);
                self.emit2(ROp::GetGlobal, dst, g);
            } else {
                self.fail(concat("undefined identifier ", name))
            },
        }
    }

    /// Load what a name stands for into a new register. Returns it.
    pub(crate) fn load_identifier(&mut self, name: &str) -> (r: u16)
        ensures
            r == old(self)@.next_temp,
            final(self)@ == old(self)@.load_name_new(name@),
    {
        proof {
            reveal(RView::load_name_new);
        }
        let r: u16 = self.take_temp();
        self.load_identifier_into(name, r);
        r
    }

    pub(crate) fn get_prop(&mut self, dst: u16, obj: u16, prop: &str)
        ensures
            final(self)@ == old(self)@.get_prop(dst, obj, prop@),
    {
        proof {
            reveal(RView::get_prop);
        }
        let idx: u16 = self.add_constant_string(prop);
        let cache: u16 = self.take_cache_slot();
        self.emit4(ROp::GetProp, dst, obj, idx, cache);
    }

    pub(crate) fn get_global_prop(&mut self, dst: u16, global: u16, prop: &str)
        ensures
            final(self)@ == old(self)@.get_global_prop(dst, global, prop@),
    {
        proof {
            reveal(RView::get_global_prop);
        }
        let idx: u16 = self.add_constant_string(prop);
        let cache: u16 = self.take_cache_slot();
        self.emit4(ROp::GetGlobalProp, dst, global, idx, cache);
    }

    pub(crate) fn get_name_prop(&mut self, dst: u16, name: &str, prop: &str)
        ensures
            final(self)@ == old(self)@.get_name_prop(dst, name@, prop@),
    {
        proof {
            reveal(RView::get_name_prop);
        }
        if let Some(r) = self.local_of(name) {
            self.get_prop(dst, r, prop);
            return ;
        }
        if let Some(g) = self.global_of(name) {
            self.get_global_prop(dst, g, prop);
            return ;
        }
        let r: u16 = self.load_identifier(name);
        self.get_prop(dst, r, prop);
    }

    /// After a call: read the locals that have a global back, because the
    /// callee may have changed it.
    pub(crate) fn reload_locals_from_globals(&mut self)
        ensures
            final(self)@ == old(self)@.reload_from(0),
    {
        proof {
            reveal(RView::reload_from);
        }
        let mut i: usize = 0;
        while i < self.locals.len()
            invariant
                0 <= i <= self@.locals.order.len(),
                self@.reload_from(i as int) == old(self)@.reload_from(0),
            decreases self@.locals.order.len() - i,
        {
            proof {
                reveal(RView::reload_from);
                reveal(RView::emit);
            }
            let r: u16 = *self.locals.value_at(i);
            let slot = match self.globals.get(self.locals.name_at(i).as_str()) {
                Some(g) => Some(*g),
                None => None,
            };
            if let Some(g) = slot {
                self.emit2(ROp::GetGlobal, r, g);
            }
            i += 1;
        }
        proof {
            reveal(RView::reload_from);
        }
    }

    pub(crate) fn reload_and_move_result(&mut self, call_dst: u16, dst: u16)
        ensures
            final(self)@ == old(self)@.finish_call(call_dst, dst),
    {
        proof {
            reveal(RView::finish_call);
        }
        self.reload_locals_from_globals();
        self.copy_reg(dst, call_dst);
    }

    /// The register that a call's result goes to first.
    pub(crate) fn call_dst(&mut self, dst: u16) -> (r: u16)
        ensures
            (final(self)@, r) == old(self)@.call_dst(dst),
    {
        proof {
            reveal(RView::call_dst);
        }
        if self.is_local_register(dst) {
            self.take_temp()
        } else {
            dst
        }
    }

    // Declarations

    pub(crate) fn declare_const(&mut self, name: &String)
        ensures
            final(self)@ == old(self)@.declare_const(name@),
    {
        proof {
            reveal(RView::declare_const);
        }
        self.const_bindings.insert(name.clone());
    }

    pub(crate) fn declare_consts(&mut self, names: &Vec<String>)
        ensures
            final(self)@ == old(self)@.declare_consts(texts(names@)),
    {
        proof {
            reveal(RView::declare_consts);
        }
        let mut i: usize = 0;
        while i < names.len()
            invariant
                0 <= i <= names@.len(),
                self@ == (RView { const_bindings: self@.const_bindings, ..old(self)@ }),
                with_names(self@.const_bindings, texts(names@), i as int) == with_names(
                    old(self)@.const_bindings,
                    texts(names@),
                    0,
                ),
            decreases names@.len() - i,
        {
            proof {
                reveal(with_names);
                assert(texts(names@)[i as int] == names@[i as int]@);
            }
            self.const_bindings.insert(names[i].clone());
            i += 1;
        }
        proof {
            reveal(with_names);
        }
    }

    pub(crate) fn declare_locals(&mut self, names: &Vec<String>)
        ensures
            final(self)@ == old(self)@.declare_locals(texts(names@), 0),
    {
        proof {
            reveal(RView::declare_locals);
        }
        let mut i: usize = 0;
        while i < names.len()
            invariant
                0 <= i <= names@.len(),
                self@.declare_locals(texts(names@), i as int) == old(self)@.declare_locals(
                    texts(names@),
                    0,
                ),
            decreases names@.len() - i,
        {
            proof {
                reveal(RView::declare_locals);
                assert(texts(names@)[i as int] == names@[i as int]@);
            }
            self.ensure_local(names[i].as_str());
            i += 1;
        }
        proof {
            reveal(RView::declare_locals);
        }
    }

    /// Give each name of a list a slot.
    pub(crate) fn declare_all(&mut self, names: &Vec<String>)
        ensures
            final(self)@ == old(self)@.declare_all(texts(names@), 0),
    {
        proof {
            reveal(RView::declare_all);
        }
        let mut i: usize = 0;
        while i < names.len()
            invariant
                0 <= i <= names@.len(),
                self@.declare_all(texts(names@), i as int) == old(self)@.declare_all(
                    texts(names@),
                    0,
                ),
            decreases names@.len() - i,
        {
            proof {
                reveal(RView::declare_all);
                assert(texts(names@)[i as int] == names@[i as int]@);
            }
            self.ensure_binding_slot(names[i].as_str());
            i += 1;
        }
        proof {
            reveal(RView::declare_all);
        }
    }

    pub(crate) fn define_class(&mut self, name: &String, class: ClassObject)
        ensures
            final(self)@ == old(self)@.define_class(name@, class_view(class)),
    {
        proof {
            reveal(RView::define_class);
        }
        insert_class(&mut self.class_defs, name.clone(), class);
    }

    pub(crate) fn declare_class(&mut self, name: &str)
        ensures
            final(self)@ == old(self)@.declare_class(name@),
    {
        proof {
            reveal(RView::declare_class);
        }
        if self.is_function_scope {
            self.ensure_local(name);
            if self.needs_global(name) {
                self.ensure_global_slot(name);
            }
        } else {
            self.ensure_global_slot(name);
        }
    }

    pub(crate) fn mirror_parameters(&mut self, parameters: &Vec<String>)
        ensures
            final(self)@ == old(self)@.mirror_parameters(texts(parameters@), 0),
    {
        proof {
            reveal(RView::mirror_parameters);
        }
        let mut i: usize = 0;
        while i < parameters.len()
            invariant
                0 <= i <= parameters@.len(),
                self@.mirror_parameters(texts(parameters@), i as int) == old(
                    self,
                )@.mirror_parameters(texts(parameters@), 0),
            decreases parameters@.len() - i,
        {
            proof {
                reveal(RView::mirror_parameters);
                assert(texts(parameters@)[i as int] == parameters@[i as int]@);
            }
            let name = parameters[i].as_str();
            if self.needs_global(name) {
                let is_new: bool = self.global_of(name).is_none();
                let g: u16 = self.ensure_global_slot(name);
                self.emit2(ROp::SetGlobal, g, i as u16);
                if is_new {
                    let ghost before = self.param_shadow_slots;
                    self.param_shadow_slots.insert(g as u64, 0);
                    assert(slots_view(self.param_shadow_slots) =~= slots_view(before).insert(g));
                }
            }
            i += 1;
        }
        proof {
            reveal(RView::mirror_parameters);
        }
    }

    /// Let the block's own variables get fresh registers. Returns what they
    /// hide.
    pub(crate) fn enter_block_scope(&mut self, stmts: &Vec<Statement>) -> (hidden: Vec<
        (String, Option<u16>),
    >)
        ensures
            (final(self)@, hidden_view(hidden@)) == old(self)@.enter_block(
                stmts@,
                0,
                Seq::empty(),
            ),
    {
        proof {
            reveal(RView::enter_block);
        }
        let mut hidden: Vec<(String, Option<u16>)> = Vec::new();
        assert(hidden_view(hidden@) =~= Seq::empty());
        let mut i: usize = 0;
        while i < stmts.len()
            invariant
                0 <= i <= stmts@.len(),
                self@.enter_block(stmts@, i as int, hidden_view(hidden@)) == old(
                    self,
                )@.enter_block(stmts@, 0, Seq::empty()),
            decreases stmts@.len() - i,
        {
            proof {
                reveal(RView::enter_block);
            }
            if let Statement::Let { name, kind, .. } = &stmts[i] {
                if *kind != VariableKind::Var {
                    let ghost before = hidden@;
                    let old_reg = self.local_of(name.as_str());
                    self.locals.remove(name.as_str());
                    hidden.push((name.clone(), old_reg));
                    assert(hidden_view(hidden@) =~= hidden_view(before).push((name@, old_reg)));
                }
            }
            i += 1;
        }
        proof {
            reveal(RView::enter_block);
        }
        hidden
    }

    /// Bring back what `enter_block_scope` hid.
    pub(crate) fn exit_block_scope(&mut self, hidden: &Vec<(String, Option<u16>)>)
        ensures
            final(self)@ == old(self)@.exit_block(hidden_view(hidden@), 0),
    {
        proof {
            reveal(RView::exit_block);
        }
        let mut i: usize = 0;
        while i < hidden.len()
            invariant
                0 <= i <= hidden@.len(),
                self@.exit_block(hidden_view(hidden@), i as int) == old(self)@.exit_block(
                    hidden_view(hidden@),
                    0,
                ),
            decreases hidden@.len() - i,
        {
            proof {
                reveal(RView::exit_block);
                assert(hidden_view(hidden@)[i as int] == (
                    hidden@[i as int].0@,
                    hidden@[i as int].1,
                ));
            }
            match hidden[i].1 {
                Some(r) => self.locals.insert(hidden[i].0.clone(), r),
                None => self.locals.remove(hidden[i].0.as_str()),
            }
            i += 1;
        }
        proof {
            reveal(RView::exit_block);
        }
    }

    // Loops

    pub(crate) fn open_loop(&mut self, label: Option<&str>, continue_target: usize)
        ensures
            final(self)@ == old(self)@.open_loop(label_text(label), continue_target),
    {
        proof {
            reveal(RView::open_loop);
        }
        let ghost before = self.loop_stack@;
        self.loop_stack.push(
            LoopContext {
                label: match label {
                    Some(l) => Some(l.to_owned()),
                    None => None,
                },
                continue_target,
                break_positions: Vec::new(),
                continue_positions: Vec::new(),
            },
        );
        assert(loops_view(self.loop_stack@) =~= loops_view(before).push(
            loop_view(self.loop_stack@.last()),
        ));
    }

    pub(crate) fn continue_here(&mut self)
        ensures
            final(self)@ == old(self)@.continue_here(),
    {
        proof {
            reveal(RView::continue_here);
            reveal(RView::here);
        }
        let n: usize = self.loop_stack.len();
        if n > 0 {
            let here: usize = self.instructions.len();
            let ghost before = self.loop_stack@;
            self.loop_stack[n - 1].continue_target = here;
            assert(loops_view(self.loop_stack@) =~= loops_view(before).update(
                n - 1,
                LoopView { continue_target: here, ..loop_view(before[n - 1]) },
            ));
        }
    }

    pub(crate) fn close_loop(&mut self, end: usize)
        ensures
            final(self)@ == old(self)@.close_loop(end),
    {
        proof {
            reveal(RView::close_loop);
        }
        let ghost before = self.loop_stack@;
        if let Some(ctx) = self.loop_stack.pop() {
            assert(loops_view(self.loop_stack@) =~= loops_view(before).drop_last());
            assert(loops_view(before).last() == loop_view(ctx));
            self.patch_jumps(&ctx.break_positions, end);
            self.patch_jumps(&ctx.continue_positions, ctx.continue_target);
        }
    }

    pub(crate) fn close_switch(&mut self, end: usize)
        ensures
            final(self)@ == old(self)@.close_switch(end),
    {
        proof {
            reveal(RView::close_switch);
        }
        let ghost before = self.loop_stack@;
        if let Some(ctx) = self.loop_stack.pop() {
            let n: usize = self.loop_stack.len();
            assert(loops_view(self.loop_stack@) =~= loops_view(before).drop_last());
            assert(loops_view(before).last() == loop_view(ctx));
            if n > 0 {
                let ghost outer = self.loop_stack@[n - 1];
                let mut more = ctx.continue_positions.clone();
                assert(more@ =~= ctx.continue_positions@);
                self.loop_stack[n - 1].continue_positions.append(&mut more);
                assert(loop_view(self.loop_stack@[n - 1]) == (LoopView {
                    continue_positions: outer.continue_positions@ + ctx.continue_positions@,
                    ..loop_view(outer)
                }));
                assert(loops_view(self.loop_stack@) =~= without_switch(loops_view(before)));
            }
            self.patch_jumps(&ctx.break_positions, end);
            if n == 0 && ctx.continue_positions.len() > 0 {
                self.fail("loop control outside loop".to_owned());
            }
        }
    }

    /// The loop that a `break` or `continue` means.
    fn find_loop(&self, label: Option<&str>) -> (r: Option<usize>)
        ensures
            match r {
                Some(n) => n < self.loop_stack@.len() && loop_index(
                    self@.loop_stack,
                    label_text(label),
                    self@.loop_stack.len() as int,
                ) == Some(n as int),
                None => loop_index(
                    self@.loop_stack,
                    label_text(label),
                    self@.loop_stack.len() as int,
                ) is None,
            },
    {
        let mut n: usize = self.loop_stack.len();
        while n > 0
            invariant
                n <= self.loop_stack@.len(),
                loop_index(
                    self@.loop_stack,
                    label_text(label),
                    self@.loop_stack.len() as int,
                ) == loop_index(self@.loop_stack, label_text(label), n as int),
            decreases n,
        {
            assert(self@.loop_stack[n - 1] == loop_view(self.loop_stack@[n - 1]));
            let found: bool = match label {
                None => true,
                Some(l) => match &self.loop_stack[n - 1].label {
                    Some(own) => str_eq(own.as_str(), l),
                    None => false,
                },
            };
            if found {
                return Some(n - 1);
            }
            n -= 1;
        }
        None
    }

    pub(crate) fn jump_from_loop(&mut self, label: Option<&str>, is_break: bool)
        ensures
            final(self)@ == old(self)@.jump_from_loop(label_text(label), is_break),
    {
        proof {
            reveal(RView::jump_from_loop);
        }
        let pos: usize = self.emit1(ROp::Jump, PLACEHOLDER);
        match self.find_loop(label) {
            Some(n) => {
                let ghost before = self.loop_stack@;
                if is_break {
                    self.loop_stack[n].break_positions.push(pos);
                    assert(loops_view(self.loop_stack@) =~= loops_view(before).update(
                        n as int,
                        LoopView {
                            break_positions: before[n as int].break_positions@.push(pos),
                            ..loop_view(before[n as int])
                        },
                    ));
                } else {
                    self.loop_stack[n].continue_positions.push(pos);
                    assert(loops_view(self.loop_stack@) =~= loops_view(before).update(
                        n as int,
                        LoopView {
                            continue_positions: before[n as int].continue_positions@.push(pos),
                            ..loop_view(before[n as int])
                        },
                    ));
                }
            },
            None => match label {
                Some(l) => self.fail(concat3("unknown loop label '", l, "'")),
                None => self.fail("loop control outside loop".to_owned()),
            },
        }
    }

    // Exceptions

    pub(crate) fn open_try(&mut self, exception: &String, deferred: &Option<(String, String)>)
        ensures
            final(self)@ == old(self)@.open_try(exception@, pair_view(*deferred)),
    {
        proof {
            reveal(RView::open_try);
        }
        let ghost before = self.try_stack@;
        let deferred_return = match deferred {
            Some((a, b)) => Some((a.clone(), b.clone())),
            None => None,
        };
        self.try_stack.push(
            TryContext {
                exception_temp: exception.clone(),
                throw_jumps: Vec::new(),
                deferred_return,
                return_jumps: Vec::new(),
            },
        );
        assert(tries_view(self.try_stack@) =~= tries_view(before).push(
            try_view(self.try_stack@.last()),
        ));
    }

    /// Leave a `try` block. Returns the jumps of the deferred returns in it.
    pub(crate) fn close_try(&mut self) -> (jumps: Vec<usize>)
        ensures
            (final(self)@, jumps@) == old(self)@.close_try(),
    {
        proof {
            reveal(RView::close_try);
            reveal(RView::here);
        }
        let ghost before = self.try_stack@;
        match self.try_stack.pop() {
            Some(ctx) => {
                assert(tries_view(self.try_stack@) =~= tries_view(before).drop_last());
                assert(tries_view(before).last() == try_view(ctx));
                let here: usize = self.instructions.len();
                self.patch_jumps(&ctx.throw_jumps, here);
                ctx.return_jumps
            },
            None => {
                self.fail("internal error: missing try context".to_owned());
                Vec::new()
            },
        }
    }

    /// Leave the exception in a register to the innermost handler.
    pub(crate) fn throw_to_handler(&mut self, src: u16)
        ensures
            final(self)@ == old(self)@.throw_to_handler(src),
    {
        proof {
            reveal(RView::throw_to_handler);
        }
        let n: usize = self.try_stack.len();
        let exception = if n > 0 {
            assert(self@.try_stack[n - 1] == try_view(self.try_stack@[n - 1]));
            self.try_stack[n - 1].exception_temp.clone()
        } else {
            self.make_temp_name("exc_fallback")
        };
        self.store_identifier(exception.as_str(), src);
        let jump: usize = self.emit1(ROp::Jump, PLACEHOLDER);
        if n > 0 && n <= self.try_stack.len() {
            let ghost before = self.try_stack@;
            self.try_stack[n - 1].throw_jumps.push(jump);
            assert(tries_view(self.try_stack@) =~= tries_view(before).update(
                n - 1,
                RTryView {
                    throw_jumps: before[n - 1].throw_jumps@.push(jump),
                    ..try_view(before[n - 1])
                },
            ));
        }
    }

    /// The hidden variables of a return that has to wait for a `finally` block.
    pub(crate) fn pending_return(&self) -> (r: Option<(String, String)>)
        ensures
            pair_view(r) == self@.pending_return(),
    {
        proof {
            reveal(RView::pending_return);
        }
        match self.find_deferring() {
            Some(n) => {
                assert(self@.try_stack[n as int] == try_view(self.try_stack@[n as int]));
                match &self.try_stack[n].deferred_return {
                    Some((a, b)) => Some((a.clone(), b.clone())),
                    None => None,
                }
            },
            None => None,
        }
    }

    /// The innermost block that a `finally` block follows.
    fn find_deferring(&self) -> (r: Option<usize>)
        ensures
            match r {
                Some(n) => n < self.try_stack@.len() && deferring(
                    self@.try_stack,
                    self@.try_stack.len() as int,
                ) == Some(n as int),
                None => deferring(self@.try_stack, self@.try_stack.len() as int) is None,
            },
    {
        let mut n: usize = self.try_stack.len();
        while n > 0
            invariant
                n <= self.try_stack@.len(),
                deferring(self@.try_stack, self@.try_stack.len() as int) == deferring(
                    self@.try_stack,
                    n as int,
                ),
            decreases n,
        {
            assert(self@.try_stack[n - 1] == try_view(self.try_stack@[n - 1]));
            if self.try_stack[n - 1].deferred_return.is_some() {
                return Some(n - 1);
            }
            n -= 1;
        }
        None
    }

    /// Keep the value of a return, and jump to the `finally` block.
    pub(crate) fn defer_return(&mut self, value: &str, flag: &str, src: u16)
        ensures
            final(self)@ == old(self)@.defer_return(value@, flag@, src),
    {
        proof {
            reveal(RView::defer_return);
        }
        self.store_identifier(value, src);
        let set: u16 = self.take_temp();
        self.emit1(ROp::LoadTrue, set);
        self.store_identifier(flag, set);
        let jump: usize = self.emit1(ROp::Jump, PLACEHOLDER);
        if let Some(n) = self.find_deferring() {
            let ghost before = self.try_stack@;
            self.try_stack[n].return_jumps.push(jump);
            assert(tries_view(self.try_stack@) =~= tries_view(before).update(
                n as int,
                RTryView {
                    return_jumps: before[n as int].return_jumps@.push(jump),
                    ..try_view(before[n as int])
                },
            ));
        }
    }

    // Functions

    pub(crate) fn finish_function(&mut self, last: Option<u16>)
        ensures
            final(self)@ == old(self)@.finish_function(last),
    {
        proof {
            reveal(RView::finish_function);
        }
        if let Some(r) = last {
            self.emit1(ROp::Return, r);
        }
        let n: usize = self.instructions.len();
        let ends_in_return: bool = n > 0 && (self.instructions[n - 1] == ROp::Return as u8
            || self.instructions[n - 1] == ROp::ReturnUndef as u8);
        if !ends_in_return {
            self.emit0(ROp::ReturnUndef);
        }
        self.emit0(ROp::Halt);
    }

    /// A compiler for a function inside this scope. Takes the realm along.
    pub(crate) fn enter_function(&mut self, parameters: &Vec<String>, captured: NameSet) -> (inner:
        Self)
        ensures
            inner@ == old(self)@.function_scope(texts(parameters@), captured@),
            forall|i: RView| #[trigger]
                final(self)@.after_function(i) == old(self)@.after_function(i),
            final(self)@.shadow_slots == old(self)@.shadow_slots,
    {
        proof {
            reveal(RView::function_scope);
            reveal(RView::after_function);
            reveal(with_parameters);
            reveal(without_captured);
        }
        let mut realm = Realm::new();
        core::mem::swap(&mut self.realm, &mut realm);
        let mut c = RCompiler::in_realm(realm);
        let ghost outer = old(self)@;
        let ghost names = texts(parameters@);
        let mut globals = self.globals.copy();
        let mut locals: NameMap<u16> = NameMap::new();
        let mut i: usize = 0;
        while i < parameters.len()
            invariant
                0 <= i <= parameters@.len(),
                names == texts(parameters@),
                with_parameters(locals@, names, i as int) == with_parameters(
                    Names::empty(),
                    names,
                    0,
                ),
                without_captured(globals@, names, captured@, i as int) == without_captured(
                    outer.globals,
                    names,
                    captured@,
                    0,
                ),
            decreases parameters@.len() - i,
        {
            proof {
                reveal(with_parameters);
                reveal(without_captured);
                assert(names[i as int] == parameters@[i as int]@);
            }
            locals.insert(parameters[i].clone(), i as u16);
            if captured.contains(parameters[i].as_str()) {
                globals.remove(parameters[i].as_str());
            }
            i += 1;
        }
        let count: u16 = parameters.len() as u16;
        c.globals = globals;
        c.next_global = self.next_global;
        c.locals = locals;
        c.num_locals = count;
        c.next_temp = count;
        c.max_reg = if count > 0 {
            count - 1
        } else {
            0
        };
        c.is_function_scope = true;
        c.captured_names = Some(captured);
        assert(c@ =~= outer.function_scope(names, captured@));
        c
    }

    /// The slots of a table that were made for parameters of this function.
    fn find_captured_slots(&self, globals: &NameMap<u16>) -> (r: Vec<u16>)
        ensures
            r@ == captured_slots(globals@, self@.shadow_slots, globals@.order.len() as int),
    {
        proof {
            reveal(captured_slots);
        }
        let mut out: Vec<u16> = Vec::new();
        let mut i: usize = 0;
        while i < globals.len()
            invariant
                0 <= i <= globals@.order.len(),
                out@ == captured_slots(globals@, self@.shadow_slots, i as int),
            decreases globals@.order.len() - i,
        {
            proof {
                reveal(captured_slots);
            }
            let slot: u16 = *globals.value_at(i);
            if self.param_shadow_slots.get(slot as u64).is_some() {
                out.push(slot);
            }
            i += 1;
        }
        out
    }

    /// Take back what a function inside this scope shares with it, and make the
    /// function.
    pub(crate) fn leave_function(
        &mut self,
        inner: RCompiler,
        num_parameters: usize,
        rest_parameter_index: Option<usize>,
        takes_this: bool,
        is_async: bool,
        is_generator: bool,
    ) -> (f: CompiledFunctionObject)
        ensures
            final(self)@ == old(self)@.after_function(inner@),
            forall|s: RView|
                s.shadow_slots == old(self)@.shadow_slots ==> function_view(f) == (
                #[trigger] s.function(
                    inner@,
                    num_parameters,
                    rest_parameter_index,
                    takes_this,
                    is_async,
                    is_generator,
                )),
    {
        proof {
            reveal(RView::after_function);
            reveal(RView::function);
        }
        let closure_captures = self.find_captured_slots(&inner.globals);
        let f = CompiledFunctionObject {
            instructions: Rc::new(inner.instructions),
            constants: Rc::new(inner.constants),
            num_locals: inner.num_locals as usize,
            num_parameters,
            rest_parameter_index,
            takes_this,
            is_async,
            is_generator,
            num_cache_slots: inner.next_cache_slot,
            max_stack_depth: 0,
            register_count: inner.max_reg.wrapping_add(1),
            inline_cache: Rc::new(VmCell::new(empty_cache(inner.next_cache_slot))),
            closure_captures,
            captured_values: Vec::new(),
        };
        if self.error.is_none() {
            self.error = inner.error;
        }
        self.realm = inner.realm;
        if inner.next_global > self.next_global {
            self.next_global = inner.next_global;
        }
        self.globals.adopt(&inner.globals);
        f
    }

    /// The class of that name, if it was defined here.
    pub(crate) fn class_of(&self, name: &str) -> (r: Option<&ClassObject>)
        ensures
            match r {
                Some(c) => self@.class_defs.get(name@) == Some(class_view(*c)),
                None => self@.class_defs.get(name@) is None,
            },
    {
        self.class_defs.get(name)
    }

    /// The compiled program, or the reason why it was rejected and the realm.
    pub(crate) fn into_bytecode(self) -> (r: Result<Bytecode, (String, Realm)>)
        ensures
            match self@.err {
                None => r matches Ok(b) && b@ == rprogram_bytecode(self@),
                Some(message) => r matches Err(e) && e.0@ == message && e.1@ == self@.realm,
            },
    {
        if let Some(message) = self.error {
            return Err((message, self.realm));
        }
        let mut bytecode = Bytecode::with_cache_slots(
            self.realm,
            self.instructions,
            self.constants,
            Vec::new(),
            self.next_cache_slot,
            0,
            self.max_reg.wrapping_add(1),
        );
        bytecode.globals_table = self.globals;
        Ok(bytecode)
    }

    // Peephole patterns

    pub(crate) fn try_numeric_const(&mut self, e: &Expression) -> (r: Option<u16>)
        ensures
            (final(self)@, r) == numeric_constant(old(self)@, *e),
    {
        proof {
            reveal(numeric_constant);
        }
        match e {
            Expression::Integer(v) => Some(self.add_constant_int(*v)),
            Expression::Float(bits) => Some(self.add_constant_float(*bits)),
            _ => None,
        }
    }

    /// Detects `local < number` and `local <= number`.
    pub(crate) fn try_fused_compare_const(&mut self, e: &Expression) -> (r: Option<(u16, u16, bool)>)
        ensures
            (final(self)@, r) == rfuse_compare(old(self)@, *e),
    {
        proof {
            reveal(rfuse_compare);
        }
        match e {
            Expression::Infix { left, operator, right } => match &**left {
                Expression::Identifier(name) => {
                    let or_equal: bool = str_eq(operator.as_str(), "<=");
                    if !or_equal && !str_eq(operator.as_str(), "<") {
                        return None;
                    }
                    let reg: u16 = match self.local_of(name.as_str()) {
                        Some(r) => r,
                        None => {
                            return None;
                        },
                    };
                    match self.try_numeric_const(right) {
                        Some(idx) => Some((reg, idx, or_equal)),
                        None => None,
                    }
                },
                _ => None,
            },
            _ => None,
        }
    }

    /// Detects `(local % number) === number`.
    pub(crate) fn try_fused_mod_strict_eq(&mut self, e: &Expression) -> (r: Option<(u16, u16, u16)>)
        ensures
            (final(self)@, r) == rfuse_mod_eq(old(self)@, *e),
    {
        proof {
            reveal(rfuse_mod_eq);
        }
        match e {
            Expression::Infix { left, operator, right } => match &**left {
                Expression::Infix { left: dividend, operator: inner, right: divisor } =>
                match &**dividend {
                    Expression::Identifier(name) => {
                        if !str_eq(operator.as_str(), "===") || !str_eq(inner.as_str(), "%") {
                            return None;
                        }
                        let reg: u16 = match self.local_of(name.as_str()) {
                            Some(r) => r,
                            None => {
                                return None;
                            },
                        };
                        let modulus: u16 = match self.try_numeric_const(divisor) {
                            Some(idx) => idx,
                            None => {
                                return None;
                            },
                        };
                        match self.try_numeric_const(right) {
                            Some(expected) => Some((reg, modulus, expected)),
                            None => None,
                        }
                    },
                    _ => None,
                },
                _ => None,
            },
            _ => None,
        }
    }

    /// Detects `local = local + number` and `local += number`.
    pub(crate) fn try_fused_increment<'a>(&mut self, e: &'a Expression) -> (r: Option<
        (u16, u16, &'a String),
    >)
        ensures
            final(self)@ == rfuse_increment(old(self)@, *e).0,
            match r {
                Some((reg, idx, name)) => rfuse_increment(old(self)@, *e).1 == Some(
                    (reg, idx, name@),
                ),
                None => rfuse_increment(old(self)@, *e).1 is None,
            },
    {
        proof {
            reveal(rfuse_increment);
        }
        match find_increment(e) {
            None => None,
            Some((name, amount)) => {
                if self.is_const(name.as_str()) {
                    return None;
                }
                let reg: u16 = match self.local_of(name.as_str()) {
                    Some(r) => r,
                    None => {
                        return None;
                    },
                };
                match self.try_numeric_const(amount) {
                    Some(idx) => Some((reg, idx, name)),
                    None => None,
                }
            },
        }
    }
}

/// What a block hides, by name.
pub open spec fn hidden_view(hidden: Seq<(String, Option<u16>)>) -> Seq<(Seq<char>, Option<u16>)> {
    Seq::new(hidden.len(), |i: int| (hidden[i].0@, hidden[i].1))
}

/// The program that a compiler's state holds.
pub open spec fn rprogram_bytecode(s: RView) -> BytecodeView {
    BytecodeView {
        instructions: s.instructions,
        constants: s.constants,
        line_number_table: Seq::empty(),
        num_cache_slots: s.next_cache_slot,
        max_stack_depth: 0,
        register_count: next16(s.max_reg),
        globals_table: s.globals,
        realm: s.realm,
    }
}

/// The register `i` places after `base`.
pub(crate) fn register_after(base: u16, i: usize) -> (r: u16)
    ensures
        r == nth_reg(base, i),
{
    base.wrapping_add(i as u16)
}

/// The opcode of a binary operator that evaluates both of its operands.
pub(crate) fn rinfix_op(operator: &str) -> (r: Option<ROp>)
    ensures
        r == infix_rop(operator@),
{
    proof {
        reveal(infix_rop);
    }
    if str_eq(operator, "+") {
        Some(ROp::Add)
    } else if str_eq(operator, "-") {
        Some(ROp::Sub)
    } else if str_eq(operator, "*") {
        Some(ROp::Mul)
    } else if str_eq(operator, "/") {
        Some(ROp::Div)
    } else if str_eq(operator, "%") {
        Some(ROp::Mod)
    } else if str_eq(operator, "**") {
        Some(ROp::Pow)
    } else if str_eq(operator, "==") {
        Some(ROp::Equal)
    } else if str_eq(operator, "!=") {
        Some(ROp::NotEqual)
    } else if str_eq(operator, "===") {
        Some(ROp::StrictEqual)
    } else if str_eq(operator, "!==") {
        Some(ROp::StrictNotEqual)
    } else if str_eq(operator, ">") {
        Some(ROp::GreaterThan)
    } else if str_eq(operator, "<") {
        Some(ROp::LessThan)
    } else if str_eq(operator, ">=") {
        Some(ROp::GreaterOrEqual)
    } else if str_eq(operator, "<=") {
        Some(ROp::LessOrEqual)
    } else if str_eq(operator, "&") {
        Some(ROp::BitwiseAnd)
    } else if str_eq(operator, "|") {
        Some(ROp::BitwiseOr)
    } else if str_eq(operator, "^") {
        Some(ROp::BitwiseXor)
    } else if str_eq(operator, "<<") {
        Some(ROp::LeftShift)
    } else if str_eq(operator, ">>") {
        Some(ROp::RightShift)
    } else if str_eq(operator, ">>>") {
        Some(ROp::UnsignedRightShift)
    } else if str_eq(operator, "in") {
        Some(ROp::In)
    } else if str_eq(operator, "instanceof") {
        Some(ROp::Instanceof)
    } else {
        None
    }
}

/// The opcode that a compound assignment applies before it stores.
pub(crate) fn rcompound_op(operator: &str) -> (r: Option<ROp>)
    ensures
        r == compound_rop(operator@),
{
    proof {
        reveal(compound_rop);
    }
    if str_eq(operator, "+=") {
        Some(ROp::Add)
    } else if str_eq(operator, "-=") {
        Some(ROp::Sub)
    } else if str_eq(operator, "*=") {
        Some(ROp::Mul)
    } else if str_eq(operator, "/=") {
        Some(ROp::Div)
    } else if str_eq(operator, "%=") {
        Some(ROp::Mod)
    } else if str_eq(operator, "**=") {
        Some(ROp::Pow)
    } else if str_eq(operator, "&=") {
        Some(ROp::BitwiseAnd)
    } else if str_eq(operator, "|=") {
        Some(ROp::BitwiseOr)
    } else if str_eq(operator, "^=") {
        Some(ROp::BitwiseXor)
    } else if str_eq(operator, "<<=") {
        Some(ROp::LeftShift)
    } else if str_eq(operator, ">>=") {
        Some(ROp::RightShift)
    } else if str_eq(operator, ">>>=") {
        Some(ROp::UnsignedRightShift)
    } else {
        None
    }
}

/// The first slot above all slots of a table.
pub(crate) fn find_free_slot(globals: &NameMap<u16>) -> (next: u32)
    ensures
        next == next_free_slot(globals@, globals@.order.len() as int),
        next <= 0x1_0000,
{
    let mut next: u32 = 0;
    let mut i: usize = 0;
    proof {
        reveal(next_free_slot);
    }
    while i < globals.len()
        invariant
            0 <= i <= globals@.order.len(),
            next <= 0x1_0000,
            next == next_free_slot(globals@, i as int),
        decreases globals@.order.len() - i,
    {
        proof {
            reveal(next_free_slot);
        }
        let slot: u32 = *globals.value_at(i) as u32;
        if slot + 1 > next {
            next = slot + 1;
        }
        i += 1;
    }
    next
}

} // verus!
