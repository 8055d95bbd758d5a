//! The stack compiler's state and its elementary steps.
use std::rc::Rc;

use vstd::prelude::*;

use crate::ast::Expression;
use crate::builtins::builtin_global_object;
use crate::bytecode::{Bytecode, BytecodeView};
use crate::code::{high_byte, join_bytes, low_byte, make, Opcode};
use crate::codegen::{
    compound_opcode, fuse_accumulate, fuse_compare, fuse_increment, fuse_mod_eq,
    fuse_property_increment, fuse_property_sum, increment_operand, infix_opcode, known_global,
    known_slot, loop_index, moved_depth, name_and_property, number_constant, property_increment,
    property_sum, stack_effect, with_names, with_parameters, without_switch, CompilerView, LoopView, Slot, TryView,
    GLOBALS_SIZE, PLACEHOLDER,
};
use crate::intern::intern_str;
use crate::names::{
    name_index_entries, word_index_entries, NameIndex, NameMap, NameSet, Names, WordIndex,
};
use crate::object::{
    class_view, copy_fields, copy_functions, copy_strings, field_initializers_view, function_view,
    insert_function, new_functions, new_objects, object_view, objects_view,
    static_initializers_view, strings_view, super_levels_view, ClassObject, ClassView,
    CompiledFunctionObject, Object, SuperLevelView, VmCell,
};
use crate::realm::{Realm, RealmView};
use crate::rules::{bare_class, blank_function, derived_class, label_view};
use crate::text::{concat, concat3, str_eq, to_decimal};

verus! {

/// A loop or switch that is being compiled.
struct LoopContext {
    label: Option<String>,
    continue_target: usize,
    break_positions: Vec<usize>,
    continue_positions: Vec<usize>,
}

/// A `try` block that is being compiled.
struct TryContext {
    exception_temp: String,
    throw_jumps: Vec<usize>,
}

/// The compiler's state.
pub struct Compiler {
    error: Option<String>,
    realm: Realm,
    instructions: Vec<u8>,
    constants: Vec<Object>,
    globals: NameMap<u16>,
    next_global: u32,
    locals: NameMap<u16>,
    class_defs: NameMap<ClassObject>,
    next_local: u16,
    is_function_scope: bool,
    last_opcode: Option<Opcode>,
    last_position: usize,
    loop_stack: Vec<LoopContext>,
    temp_counter: u64,
    try_stack: Vec<TryContext>,
    // Constants that were added already, by value
    constant_strings: NameIndex,
    constant_ints: WordIndex,
    constant_floats: WordIndex,
    // Inline cache slot counter for property accesses
    next_cache_slot: u16,
    // Stack depth tracking for bounds check hoisting
    current_stack_depth: i32,
    max_stack_depth: i32,
    // A trailing load that was left out, so that it can be emitted when the
    // value turns out to be needed
    elided_trailing_get: Option<(Opcode, u16)>,
    // Names declared with `const`: assignment to these is an error
    const_bindings: NameSet,
}

spec fn loop_view(l: LoopContext) -> LoopView {
    LoopView {
        label: label_view(l.label),
        continue_target: l.continue_target,
        break_positions: l.break_positions@,
        continue_positions: l.continue_positions@,
    }
}

spec fn loops_view(v: Seq<LoopContext>) -> Seq<LoopView> {
    Seq::new(v.len(), |i: int| loop_view(v[i]))
}

spec fn try_view(t: TryContext) -> TryView {
    TryView { exception_temp: t.exception_temp@, throw_jumps: t.throw_jumps@ }
}

spec fn tries_view(v: Seq<TryContext>) -> Seq<TryView> {
    Seq::new(v.len(), |i: int| try_view(v[i]))
}

/// The classes of a table.
pub open spec fn class_table_view(t: NameMap<ClassObject>) -> Names<ClassView> {
    Names {
        map: Map::new(|name: Seq<char>| t@.has(name), |name: Seq<char>| class_view(t@.map[name])),
        order: t@.order,
    }
}

impl View for Compiler {
    type V = CompilerView;

    closed spec fn view(&self) -> CompilerView {
        CompilerView {
            err: label_view(self.error),
            realm: self.realm@,
            instructions: self.instructions@,
            constants: objects_view(self.constants),
            globals: self.globals@,
            next_global: self.next_global,
            locals: self.locals@,
            class_defs: class_table_view(self.class_defs),
            next_local: self.next_local,
            is_function_scope: self.is_function_scope,
            last_opcode: self.last_opcode,
            last_position: self.last_position,
            loop_stack: loops_view(self.loop_stack@),
            temp_counter: self.temp_counter,
            try_stack: tries_view(self.try_stack@),
            string_slots: name_index_entries(self.constant_strings),
            int_slots: word_index_entries(self.constant_ints),
            float_slots: word_index_entries(self.constant_floats),
            next_cache_slot: self.next_cache_slot,
            depth: self.current_stack_depth,
            max_depth: self.max_stack_depth,
            elided: self.elided_trailing_get,
            const_bindings: self.const_bindings@,
        }
    }
}

impl Compiler {
    pub fn new() -> (c: Self)
        ensures
            c@ == CompilerView::start(RealmView::empty()),
    {
        Compiler::in_realm(Realm::new())
    }

    /// A compiler for a program that shares symbols with others.
    pub fn in_realm(realm: Realm) -> (c: Self)
        ensures
            c@ == CompilerView::start(realm@),
    {
        let c = Compiler {
            error: None,
            realm,
            instructions: Vec::new(),
            constants: Vec::new(),
            globals: NameMap::new(),
            next_global: 0,
            locals: NameMap::new(),
            class_defs: NameMap::new(),
            next_local: 0,
            is_function_scope: false,
            last_opcode: None,
            last_position: 0,
            loop_stack: Vec::new(),
            temp_counter: 0,
            try_stack: Vec::new(),
            constant_strings: NameIndex::new(),
            constant_ints: WordIndex::new(),
            constant_floats: WordIndex::new(),
            next_cache_slot: 0,
            current_stack_depth: 0,
            max_stack_depth: 0,
            elided_trailing_get: None,
            const_bindings: NameSet::new(),
        };
        assert(objects_view(c.constants) =~= Seq::empty());
        assert(c@ =~= CompilerView::start(realm@));
        c
    }

    /// Reject the program, unless it was rejected already.
    pub(crate) fn fail(&mut self, message: String)
        ensures
            final(self)@ == old(self)@.fail(message@),
    {
        proof {
            reveal(CompilerView::fail);
        }
        if self.error.is_none() {
            self.error = Some(message);
        }
    }

    /// The net stack effect of an opcode.
    pub(crate) fn stack_effect(op: Opcode, operands: &[u16]) -> (n: i32)
        ensures
            n == stack_effect(op, operands@),
            -65536 <= n <= 1,
    {
        let first: i32 = if operands.len() > 0 {
            operands[0] as i32
        } else {
            0
        };
        let second: i32 = if operands.len() > 1 {
            operands[1] as i32
        } else {
            0
        };
        match op {
            Opcode::OpConstant
            | Opcode::OpTrue
            | Opcode::OpFalse
            | Opcode::OpNull
            | Opcode::OpUndefined
            | Opcode::OpGetGlobal
            | Opcode::OpGetLocal
            | Opcode::OpGetKeysIterator
            | Opcode::OpGetLocalProperty
            | Opcode::OpGetGlobalProperty
            | Opcode::OpNewTarget
            | Opcode::OpImportMeta
            | Opcode::OpSuper => 1,
            Opcode::OpAdd
            | Opcode::OpSub
            | Opcode::OpMul
            | Opcode::OpDiv
            | Opcode::OpMod
            | Opcode::OpPow
            | Opcode::OpEqual
            | Opcode::OpNotEqual
            | Opcode::OpGreaterThan
            | Opcode::OpLessThan
            | Opcode::OpLessOrEqual
            | Opcode::OpGreaterOrEqual
            | Opcode::OpStrictEqual
            | Opcode::OpStrictNotEqual
            | Opcode::OpIndex
            | Opcode::OpInstanceof
            | Opcode::OpIn
            | Opcode::OpBitwiseAnd
            | Opcode::OpBitwiseOr
            | Opcode::OpBitwiseXor
            | Opcode::OpLeftShift
            | Opcode::OpRightShift
            | Opcode::OpUnsignedRightShift
            | Opcode::OpDeleteProperty
            | Opcode::OpIteratorRest
            | Opcode::OpAppendElement
            | Opcode::OpAppendSpread
            | Opcode::OpPop
            | Opcode::OpSetGlobal
            | Opcode::OpSetLocal
            | Opcode::OpThrow
            | Opcode::OpReturnValue
            | Opcode::OpSetLocalPropertyPop
            | Opcode::OpSetGlobalPropertyPop
            | Opcode::OpJumpNotTruthy
            | Opcode::OpDefineAccessor => -1,
            Opcode::OpSetIndex => -2,
            Opcode::OpArray | Opcode::OpHash | Opcode::OpObjectRest => 1 - first,
            Opcode::OpCall | Opcode::OpNew => 0 - first,
            Opcode::OpCallGlobal => 1 - second,
            _ => 0,
        }
    }

    pub(crate) fn move_depth(depth: i32, effect: i32) -> (d: i32)
        ensures
            d == moved_depth(depth, effect as int),
    {
        let sum: i64 = depth as i64 + effect as i64;
        if sum > i32::MAX as i64 {
            i32::MAX
        } else if sum < i32::MIN as i64 {
            i32::MIN
        } else {
            sum as i32
        }
    }

    /// Append an instruction. Returns its position.
    pub(crate) fn emit(&mut self, op: Opcode, operands: &[u16]) -> (pos: usize)
        ensures
            final(self)@ == old(self)@.emit(op, operands@),
            pos == old(self)@.here(),
    {
        proof {
            reveal(CompilerView::emit);
            reveal(CompilerView::here);
        }
        let pos: usize = self.instructions.len();
        let mut bytes = make(op, operands);
        self.instructions.append(&mut bytes);
        self.last_opcode = Some(op);
        self.last_position = pos;
        let effect: i32 = Compiler::stack_effect(op, operands);
        self.current_stack_depth = Compiler::move_depth(self.current_stack_depth, effect);
        if self.current_stack_depth > self.max_stack_depth {
            self.max_stack_depth = self.current_stack_depth;
        }
        pos
    }

    pub(crate) fn emit0(&mut self, op: Opcode) -> (pos: usize)
        ensures
            final(self)@ == old(self)@.emit0(op),
            pos == old(self)@.here(),
    {
        proof {
            reveal(CompilerView::emit0);
        }
        let none: [u16; 0] = [];
        assert(none@ =~= seq![]);
        self.emit(op, &none)
    }

    pub(crate) fn emit1(&mut self, op: Opcode, a: u16) -> (pos: usize)
        ensures
            final(self)@ == old(self)@.emit1(op, a),
            pos == old(self)@.here(),
    {
        proof {
            reveal(CompilerView::emit1);
        }
        let one = [a];
        assert(one@ =~= seq![a]);
        self.emit(op, &one)
    }

    pub(crate) fn emit2(&mut self, op: Opcode, a: u16, b: u16) -> (pos: usize)
        ensures
            final(self)@ == old(self)@.emit(op, seq![a, b]),
            pos == old(self)@.here(),
    {
        let two = [a, b];
        assert(two@ =~= seq![a, b]);
        self.emit(op, &two)
    }

    pub(crate) fn emit3(&mut self, op: Opcode, a: u16, b: u16, c: u16) -> (pos: usize)
        ensures
            final(self)@ == old(self)@.emit(op, seq![a, b, c]),
            pos == old(self)@.here(),
    {
        let three = [a, b, c];
        assert(three@ =~= seq![a, b, c]);
        self.emit(op, &three)
    }

    pub(crate) fn emit4(&mut self, op: Opcode, a: u16, b: u16, c: u16, d: u16) -> (pos: usize)
        ensures
            final(self)@ == old(self)@.emit(op, seq![a, b, c, d]),
            pos == old(self)@.here(),
    {
        let four = [a, b, c, d];
        assert(four@ =~= seq![a, b, c, d]);
        self.emit(op, &four)
    }

    /// Set an operand of the instruction at `op_pos`.
    pub(crate) fn change_operand_at(&mut self, op_pos: usize, byte_offset: usize, target: usize)
        requires
            byte_offset <= 6,
        ensures
            final(self)@ == old(self)@.patch(op_pos, byte_offset as int, target),
    {
        proof {
            reveal(CompilerView::patch);
        }
        let operand: u16 = target as u16;
        let len: usize = self.instructions.len();
        if len < 3 + byte_offset || op_pos > len - 3 - byte_offset {
            return ;
        }
        let at: usize = op_pos + 1 + byte_offset;
        self.instructions[at] = high_byte(operand);
        self.instructions[at + 1] = low_byte(operand);
    }

    /// Set the first operand of the instruction at `op_pos`.
    pub(crate) fn change_operand(&mut self, op_pos: usize, target: usize)
        ensures
            final(self)@ == old(self)@.patch(op_pos, 0, target),
    {
        self.change_operand_at(op_pos, 0, target);
    }

    /// Set the first operand of each of the instructions at `positions`.
    pub(crate) fn change_operands(&mut self, positions: &Vec<usize>, target: usize)
        ensures
            final(self)@ == old(self)@.patch_all(positions@, 0, target),
    {
        proof {
            reveal(CompilerView::patch_all);
        }
        let mut i: usize = 0;
        while i < positions.len()
            invariant
                0 <= i <= positions@.len(),
                self@.patch_all(positions@, i as int, target) == old(self)@.patch_all(
                    positions@,
                    0,
                    target,
                ),
            decreases positions@.len() - i,
        {
            proof {
                reveal(CompilerView::patch_all);
            }
            self.change_operand(positions[i], target);
            i += 1;
        }
    }

    pub(crate) fn make_temp_name(&mut self, prefix: &str) -> (name: String)
        ensures
            name@ == old(self)@.temp(prefix@),
            final(self)@ == old(self)@.after_temp(),
    {
        proof {
            reveal(CompilerView::temp);
            reveal(CompilerView::after_temp);
        }
        let digits = to_decimal(self.temp_counter);
        let name = concat3("__fl_", prefix, "_").concat(digits.as_str());
        self.temp_counter = self.temp_counter.wrapping_add(1);
        name
    }

    pub(crate) fn take_cache_slot(&mut self) -> (slot: u16)
        ensures
            slot == old(self)@.next_cache_slot,
            final(self)@ == old(self)@.after_cache_slot(),
    {
        proof {
            reveal(CompilerView::after_cache_slot);
        }
        let slot: u16 = self.next_cache_slot;
        self.next_cache_slot = slot.wrapping_add(1);
        slot
    }

    pub(crate) fn add_constant(&mut self, obj: Object) -> (idx: u16)
        ensures
            (final(self)@, idx) == old(self)@.add_constant(object_view(obj)),
    {
        proof {
            reveal(CompilerView::add_constant);
        }
        let idx: u16 = self.constants.len() as u16;
        let ghost before = self.constants;
        let ghost view = object_view(obj);
        self.constants.push(obj);
        assert(objects_view(self.constants) =~= objects_view(before).push(view));
        idx
    }

    pub(crate) fn add_constant_string(&mut self, s: &str) -> (idx: u16)
        ensures
            (final(self)@, idx) == old(self)@.add_string(s@),
    {
        proof {
            reveal(CompilerView::add_constant);
            reveal(CompilerView::add_string);
        }
        match self.constant_strings.get(s) {
            Some(idx) => idx as u16,
            None => {
                let interned = intern_str(&mut self.realm.symbols, s);
                let idx: u16 = self.add_constant(Object::String((*interned).clone()));
                self.constant_strings.insert((*interned).clone(), idx as usize);
                idx
            },
        }
    }

    pub(crate) fn add_constant_int(&mut self, v: i64) -> (idx: u16)
        ensures
            (final(self)@, idx) == old(self)@.add_int(v),
    {
        proof {
            reveal(CompilerView::add_constant);
            reveal(CompilerView::add_int);
        }
        match self.constant_ints.get(v as u64) {
            Some(idx) => idx as u16,
            None => {
                let idx: u16 = self.add_constant(Object::Integer(v));
                self.constant_ints.insert(v as u64, idx as usize);
                idx
            },
        }
    }

    pub(crate) fn add_constant_float(&mut self, bits: u64) -> (idx: u16)
        ensures
            (final(self)@, idx) == old(self)@.add_float(bits),
    {
        proof {
            reveal(CompilerView::add_constant);
            reveal(CompilerView::add_float);
        }
        match self.constant_floats.get(bits) {
            Some(idx) => idx as u16,
            None => {
                let idx: u16 = self.add_constant(Object::Float(bits));
                self.constant_floats.insert(bits, idx as usize);
                idx
            },
        }
    }

    pub(crate) fn push_object(&mut self, obj: Object)
        ensures
            final(self)@ == old(self)@.push_object(object_view(obj)),
    {
        proof {
            reveal(CompilerView::push_object);
        }
        let idx: u16 = self.add_constant(obj);
        self.emit1(Opcode::OpConstant, idx);
    }

    pub(crate) fn push_int(&mut self, v: i64)
        ensures
            final(self)@ == old(self)@.push_int(v),
    {
        proof {
            reveal(CompilerView::push_int);
        }
        let idx: u16 = self.add_constant_int(v);
        self.emit1(Opcode::OpConstant, idx);
    }

    pub(crate) fn push_float(&mut self, bits: u64)
        ensures
            final(self)@ == old(self)@.push_float(bits),
    {
        proof {
            reveal(CompilerView::push_float);
        }
        let idx: u16 = self.add_constant_float(bits);
        self.emit1(Opcode::OpConstant, idx);
    }

    pub(crate) fn push_string(&mut self, s: &str)
        ensures
            final(self)@ == old(self)@.push_string(s@),
    {
        proof {
            reveal(CompilerView::push_string);
        }
        let idx: u16 = self.add_constant_string(s);
        self.emit1(Opcode::OpConstant, idx);
    }

    pub(crate) fn ensure_global_slot(&mut self, name: &str) -> (r: u16)
        ensures
            (final(self)@, r) == old(self)@.global_slot(name@),
    {
        proof {
            reveal(CompilerView::global_slot);
        }
        if let Some(idx) = self.globals.get(name) {
            return *idx;
        }
        if self.next_global >= GLOBALS_SIZE {
            self.fail("global symbol table overflow".to_owned());
            return 0;
        }
        let idx: u16 = self.next_global as u16;
        self.globals.insert(name.to_owned(), idx);
        self.next_global += 1;
        idx
    }

    pub(crate) fn ensure_local_slot(&mut self, name: &str) -> (idx: u16)
        ensures
            (final(self)@, idx) == old(self)@.local_slot(name@),
    {
        proof {
            reveal(CompilerView::local_slot);
        }
        if let Some(idx) = self.locals.get(name) {
            return *idx;
        }
        let idx: u16 = self.next_local;
        self.locals.insert(name.to_owned(), idx);
        self.next_local = idx.wrapping_add(1);
        idx
    }

    pub(crate) fn ensure_binding_slot(&mut self, name: &str) -> (r: u16)
        ensures
            (final(self)@, r) == old(self)@.binding_slot(name@),
    {
        proof {
            reveal(CompilerView::binding_slot);
        }
        if self.is_function_scope {
            self.ensure_local_slot(name)
        } else {
            self.ensure_global_slot(name)
        }
    }

    pub(crate) fn ensure_name_slot(&mut self, name: &str) -> (r: Slot)
        ensures
            (final(self)@, r) == old(self)@.name_slot(name@),
    {
        proof {
            reveal(CompilerView::name_slot);
        }
        if let Some(idx) = self.locals.get(name) {
            return Slot::Local(*idx);
        }
        let idx: u16 = self.ensure_global_slot(name);
        Slot::Global(idx)
    }

    pub(crate) fn load(&mut self, slot: Slot)
        ensures
            final(self)@ == old(self)@.load(slot),
    {
        proof {
            reveal(CompilerView::load);
        }
        match slot {
            Slot::Local(idx) => {
                self.emit1(Opcode::OpGetLocal, idx);
            },
            Slot::Global(idx) => {
                self.emit1(Opcode::OpGetGlobal, idx);
            },
        }
    }

    pub(crate) fn store(&mut self, slot: Slot)
        ensures
            final(self)@ == old(self)@.store(slot),
    {
        proof {
            reveal(CompilerView::store);
        }
        match slot {
            Slot::Local(idx) => {
                self.emit1(Opcode::OpSetLocal, idx);
            },
            Slot::Global(idx) => {
                self.emit1(Opcode::OpSetGlobal, idx);
            },
        }
    }

    pub(crate) fn assign_identifier_from_top(&mut self, name: &str)
        ensures
            final(self)@ == old(self)@.assign_top(name@),
    {
        proof {
            reveal(CompilerView::assign_top);
        }
        let idx: u16 = self.ensure_binding_slot(name);
        if self.is_function_scope {
            self.emit1(Opcode::OpSetLocal, idx);
        } else {
            self.emit1(Opcode::OpSetGlobal, idx);
        }
    }

    pub(crate) fn assign_target_from_top(&mut self, name: &str)
        ensures
            final(self)@ == old(self)@.assign_target(name@),
    {
        proof {
            reveal(CompilerView::assign_target);
        }
        if self.is_const(name) {
            self.fail(concat3("Assignment to constant variable '", name, "'"));
        } else {
            self.assign_identifier_from_top(name);
        }
    }

    pub(crate) fn compile_identifier(&mut self, name: &str)
        ensures
            final(self)@ == old(self)@.push_name(name@),
    {
        proof {
            reveal(CompilerView::push_name);
        }
        if let Some(idx) = self.locals.get(name) {
            let idx: u16 = *idx;
            self.emit1(Opcode::OpGetLocal, idx);
            return ;
        }
        if let Some(idx) = self.globals.get(name) {
            let idx: u16 = *idx;
            self.emit1(Opcode::OpGetGlobal, idx);
            return ;
        }
        match builtin_global_object(&mut self.realm, name) {
            Some(obj) => {
                self.push_object(obj);
            },
            None => if self.is_function_scope {
                let idx: u16 = self.ensure_global_slot(name);
                self.emit1(Opcode::OpGetGlobal, idx);
            } else {
                self.fail(concat("undefined identifier ", name))
            },
        }
    }

    pub(crate) fn get_property(&mut self, prop: &str)
        ensures
            final(self)@ == old(self)@.get_property(prop@),
    {
        proof {
            reveal(CompilerView::get_property);
        }
        let idx: u16 = self.add_constant_string(prop);
        let cache: u16 = self.take_cache_slot();
        self.emit2(Opcode::OpGetProperty, idx, cache);
    }

    pub(crate) fn compile_property(&mut self, name: &str, prop: &str)
        ensures
            final(self)@ == old(self)@.push_property(name@, prop@),
    {
        proof {
            reveal(CompilerView::push_property);
        }
        if let Some(slot) = self.locals.get(name) {
            let slot: u16 = *slot;
            let idx: u16 = self.add_constant_string(prop);
            let cache: u16 = self.take_cache_slot();
            self.emit3(Opcode::OpGetLocalProperty, slot, idx, cache);
            return ;
        }
        if let Some(slot) = self.globals.get(name) {
            let slot: u16 = *slot;
            let idx: u16 = self.add_constant_string(prop);
            let cache: u16 = self.take_cache_slot();
            self.emit3(Opcode::OpGetGlobalProperty, slot, idx, cache);
            return ;
        }
        self.compile_identifier(name);
        self.get_property(prop);
    }

    pub(crate) fn declare_null(&mut self, name: &str)
        ensures
            final(self)@ == old(self)@.declare_null(name@),
    {
        proof {
            reveal(CompilerView::declare_null);
        }
        self.elided_trailing_get = None;
        let idx: u16 = self.ensure_binding_slot(name);
        self.emit0(Opcode::OpNull);
        if self.is_function_scope {
            let global: u16 = self.ensure_global_slot(name);
            self.emit1(Opcode::OpSetLocal, idx);
            self.emit1(Opcode::OpGetLocal, idx);
            self.emit1(Opcode::OpSetGlobal, global);
        } else {
            self.emit1(Opcode::OpSetGlobal, idx);
        }
    }

    pub(crate) fn set_name(&mut self, name: &str)
        ensures
            final(self)@ == old(self)@.set_name(name@),
    {
        proof {
            reveal(CompilerView::set_name);
        }
        let slot = self.ensure_name_slot(name);
        self.store(slot);
        self.load(slot);
    }

    pub(crate) fn step_name(&mut self, name: &str, operator: &str)
        ensures
            final(self)@ == old(self)@.step_name(name@, operator@),
    {
        proof {
            reveal(CompilerView::step_name);
        }
        if self.const_bindings.contains(name) {
            self.fail(concat3("Assignment to constant variable '", name, "'"));
                return ;
        }
        match compound_op(operator) {
            Some(op) => {
                let slot = self.ensure_name_slot(name);
                self.load(slot);
                self.push_int(1);
                self.emit0(op);
                self.store(slot);
                self.load(slot);
            },
            None => self.fail(concat("unsupported assignment operator ", operator)),
        }
    }

    pub(crate) fn push_element(&mut self, source: &str, i: usize)
        ensures
            final(self)@ == old(self)@.push_element(source@, i as int),
    {
        proof {
            reveal(CompilerView::push_element);
        }
        self.compile_identifier(source);
        self.push_int(i as i64);
        self.emit0(Opcode::OpIndex);
    }

    pub(crate) fn compile_array_rest_from(&mut self, source: &str, i: usize)
        ensures
            final(self)@ == old(self)@.push_rest(source@, i as int),
    {
        proof {
            reveal(CompilerView::push_rest);
        }
        self.compile_identifier(source);
        self.push_int(i as i64);
        self.emit0(Opcode::OpIteratorRest);
    }

    pub(crate) fn open_loop(&mut self, label: Option<&str>, continue_target: usize)
        ensures
            final(self)@ == old(self)@.open_loop(label_text(label), continue_target),
    {
        proof {
            reveal(CompilerView::open_loop);
        }
        let ghost before = self.loop_stack@;
        self.loop_stack.push(
            LoopContext {
                label: match label {
                    Some(l) => Some(l.to_owned()),
                    None => None,
                },
                continue_target,
                break_positions: Vec::new(),
                continue_positions: Vec::new(),
            },
        );
        assert(loops_view(self.loop_stack@) =~= loops_view(before).push(
            loop_view(self.loop_stack@.last()),
        ));
    }

    pub(crate) fn continue_here(&mut self)
        ensures
            final(self)@ == old(self)@.continue_here(),
    {
        proof {
            reveal(CompilerView::continue_here);
            reveal(CompilerView::here);
        }
        let n: usize = self.loop_stack.len();
        if n > 0 {
            let here: usize = self.instructions.len();
            let ghost before = self.loop_stack@;
            self.loop_stack[n - 1].continue_target = here;
            assert(loops_view(self.loop_stack@) =~= loops_view(before).update(
                n - 1,
                LoopView { continue_target: here, ..loop_view(before[n - 1]) },
            ));
        }
    }

    pub(crate) fn close_loop(&mut self, end: usize)
        ensures
            final(self)@ == old(self)@.close_loop(end),
    {
        proof {
            reveal(CompilerView::close_loop);
        }
        let ghost before = self.loop_stack@;
        if let Some(ctx) = self.loop_stack.pop() {
            assert(loops_view(self.loop_stack@) =~= loops_view(before).drop_last());
            assert(loops_view(before).last() == loop_view(ctx));
            self.change_operands(&ctx.break_positions, end);
            self.change_operands(&ctx.continue_positions, ctx.continue_target);
        }
    }

    pub(crate) fn close_switch(&mut self, end: usize)
        ensures
            final(self)@ == old(self)@.close_switch(end),
    {
        proof {
            reveal(CompilerView::close_switch);
        }
        let ghost before = self.loop_stack@;
        if let Some(ctx) = self.loop_stack.pop() {
            let n: usize = self.loop_stack.len();
            assert(loops_view(self.loop_stack@) =~= loops_view(before).drop_last());
            assert(loops_view(before).last() == loop_view(ctx));
            if n > 0 {
                let ghost outer = self.loop_stack@[n - 1];
                let mut more = ctx.continue_positions.clone();
                assert(more@ =~= ctx.continue_positions@);
                self.loop_stack[n - 1].continue_positions.append(&mut more);
                assert(loop_view(self.loop_stack@[n - 1]) == (LoopView {
                    continue_positions: outer.continue_positions@ + ctx.continue_positions@,
                    ..loop_view(outer)
                }));
                assert(loops_view(self.loop_stack@) =~= without_switch(loops_view(before)));
            }
            self.change_operands(&ctx.break_positions, end);
            if n == 0 && ctx.continue_positions.len() > 0 {
                self.fail("loop control outside loop".to_owned());
            }
        }
    }

    /// The loop that a `break` or `continue` means.
    fn find_loop(&self, label: Option<&str>) -> (r: Option<usize>)
        ensures
            match r {
                Some(n) => n < self.loop_stack@.len() && loop_index(
                    self@.loop_stack,
                    label_text(label),
                    self@.loop_stack.len() as int,
                ) == Some(n as int),
                None => loop_index(
                    self@.loop_stack,
                    label_text(label),
                    self@.loop_stack.len() as int,
                ) is None,
            },
    {
        let mut n: usize = self.loop_stack.len();
        while n > 0
            invariant
                n <= self.loop_stack@.len(),
                loop_index(
                    self@.loop_stack,
                    label_text(label),
                    self@.loop_stack.len() as int,
                ) == loop_index(self@.loop_stack, label_text(label), n as int),
            decreases n,
        {
            assert(self@.loop_stack[n - 1] == loop_view(self.loop_stack@[n - 1]));
            let found: bool = match label {
                None => true,
                Some(l) => match &self.loop_stack[n - 1].label {
                    Some(own) => str_eq(own.as_str(), l),
                    None => false,
                },
            };
            if found {
                return Some(n - 1);
            }
            n -= 1;
        }
        None
    }

    pub(crate) fn jump_from_loop(&mut self, label: Option<&str>, is_break: bool)
        ensures
            final(self)@ == old(self)@.jump_from_loop(label_text(label), is_break),
    {
        proof {
            reveal(CompilerView::jump_from_loop);
        }
        let pos: usize = self.emit1(Opcode::OpJump, PLACEHOLDER);
        match self.find_loop(label) {
            Some(n) => {
                let ghost before = self.loop_stack@;
                if is_break {
                    self.loop_stack[n].break_positions.push(pos);
                    assert(loops_view(self.loop_stack@) =~= loops_view(before).update(
                        n as int,
                        LoopView {
                            break_positions: before[n as int].break_positions@.push(pos),
                            ..loop_view(before[n as int])
                        },
                    ));
                } else {
                    self.loop_stack[n].continue_positions.push(pos);
                    assert(loops_view(self.loop_stack@) =~= loops_view(before).update(
                        n as int,
                        LoopView {
                            continue_positions: before[n as int].continue_positions@.push(pos),
                            ..loop_view(before[n as int])
                        },
                    ));
                }
            },
            None => match label {
                Some(l) => self.fail(concat3("unknown loop label '", l, "'")),
                None => self.fail("loop control outside loop".to_owned()),
            },
        }
    }

    pub(crate) fn jump_back(&mut self, start: usize)
        ensures
            final(self)@ == old(self)@.jump_back(start),
    {
        proof {
            reveal(CompilerView::jump_back);
        }
        if self.last_opcode == Some(Opcode::OpIncrementGlobal) {
            if self.last_position < self.instructions.len() {
                let at: usize = self.last_position;
                self.instructions[at] = Opcode::OpIncrementGlobalAndJump as u8;
            }
            let target: u16 = start as u16;
            self.instructions.push(high_byte(target));
            self.instructions.push(low_byte(target));
            self.last_opcode = Some(Opcode::OpIncrementGlobalAndJump);
            self.elided_trailing_get = None;
        } else {
            self.emit1(Opcode::OpJump, start as u16);
        }
    }

    pub(crate) fn remove_last_pop(&mut self)
        ensures
            final(self)@ == old(self)@.remove_last_pop(),
    {
        proof {
            reveal(CompilerView::remove_last_pop);
        }
        if self.last_opcode == Some(Opcode::OpPop) {
            let ghost code = self.instructions@;
            self.instructions.truncate(self.last_position);
            self.last_opcode = None;
            self.elided_trailing_get = None;
            assert(self.instructions@ =~= (if self.last_position <= code.len() {
                code.take(self.last_position as int)
            } else {
                code
            }));
            return ;
        }
        if let Some((op, operand)) = self.elided_trailing_get {
            self.elided_trailing_get = None;
            self.emit1(op, operand);
        }
    }

    /// Drop a load that follows a store to the same variable. Returns whether
    /// there was one.
    pub(crate) fn try_elide_get_before_pop(&mut self, statement_start: usize) -> (elided: bool)
        ensures
            elided == old(self)@.ends_in_store_and_load(statement_start),
            final(self)@ == (if elided {
                old(self)@.without_last_load()
            } else {
                old(self)@
            }),
    {
        proof {
            reveal(CompilerView::ends_in_store_and_load);
            reveal(CompilerView::without_last_load);
        }
        let len: usize = self.instructions.len();
        let get: usize = self.last_position;
        if get < 3 || len < 3 || get > len - 3 {
            return false;
        }
        let set: usize = get - 3;
        let set_opcode: u8 = self.instructions[set];
        let get_opcode: u8 = self.instructions[get];
        let is_local: bool = get_opcode == Opcode::OpGetLocal as u8;
        if is_local {
            if set_opcode != Opcode::OpSetLocal as u8 {
                return false;
            }
        } else if get_opcode == Opcode::OpGetGlobal as u8 {
            if set < statement_start || set_opcode != Opcode::OpSetGlobal as u8 {
                return false;
            }
        } else {
            return false;
        }
        if self.instructions[set + 1] != self.instructions[get + 1] || self.instructions[set + 2]
            != self.instructions[get + 2] {
            return false;
        }
        let operand: u16 = join_bytes(self.instructions[get + 1], self.instructions[get + 2]);
        let ghost code = self.instructions@;
        self.instructions.truncate(get);
        assert(self.instructions@ =~= code.take(get as int));
        self.last_position = set;
        self.last_opcode = Some(
            if is_local {
                Opcode::OpSetLocal
            } else {
                Opcode::OpSetGlobal
            },
        );
        self.elided_trailing_get = Some(
            (
                if is_local {
                    Opcode::OpGetLocal
                } else {
                    Opcode::OpGetGlobal
                },
                operand,
            ),
        );
        self.current_stack_depth = Compiler::move_depth(self.current_stack_depth, -1);
        true
    }

    pub(crate) fn drop_result(&mut self, is_name_assignment: bool, statement_start: usize)
        ensures
            final(self)@ == old(self)@.drop_result(is_name_assignment, statement_start),
    {
        proof {
            reveal(CompilerView::drop_result);
        }
        if self.last_opcode == Some(Opcode::OpSetLocalProperty) {
            if self.last_position < self.instructions.len() {
                let at: usize = self.last_position;
                self.instructions[at] = Opcode::OpSetLocalPropertyPop as u8;
            }
            self.last_opcode = Some(Opcode::OpSetLocalPropertyPop);
            self.current_stack_depth = Compiler::move_depth(self.current_stack_depth, -1);
        } else if self.last_opcode == Some(Opcode::OpSetGlobalProperty) {
            if self.last_position < self.instructions.len() {
                let at: usize = self.last_position;
                self.instructions[at] = Opcode::OpSetGlobalPropertyPop as u8;
            }
            self.last_opcode = Some(Opcode::OpSetGlobalPropertyPop);
            self.current_stack_depth = Compiler::move_depth(self.current_stack_depth, -1);
        } else {
            let after_load: bool = self.last_opcode == Some(Opcode::OpGetLocal)
                || self.last_opcode == Some(Opcode::OpGetGlobal);
            if is_name_assignment && after_load && self.try_elide_get_before_pop(statement_start) {
                return ;
            }
            self.emit0(Opcode::OpPop);
        }
    }

    pub(crate) fn number_constant(&mut self, e: &Expression, negate: bool) -> (r: Option<u16>)
        ensures
            (final(self)@, r) == number_constant(old(self)@, *e, negate),
    {
        proof {
            reveal(number_constant);
        }
        match e {
            Expression::Integer(v) => {
                let v: i64 = if negate && *v != i64::MIN {
                    -*v
                } else {
                    *v
                };
                Some(self.add_constant_int(v))
            },
            Expression::Float(bits) => {
                let bits: u64 = if negate {
                    if *bits < 0x8000_0000_0000_0000 {
                        *bits + 0x8000_0000_0000_0000
                    } else {
                        *bits - 0x8000_0000_0000_0000
                    }
                } else {
                    *bits
                };
                Some(self.add_constant_float(bits))
            },
            _ => None,
        }
    }

    pub(crate) fn known_slot(&self, name: &str) -> (r: Option<Slot>)
        ensures
            r == known_slot(self@, name@),
    {
        if let Some(idx) = self.locals.get(name) {
            Some(Slot::Local(*idx))
        } else if let Some(idx) = self.globals.get(name) {
            Some(Slot::Global(*idx))
        } else {
            None
        }
    }

    pub(crate) fn known_global(&self, name: &str) -> (r: Option<u16>)
        ensures
            r == known_global(self@, name@),
    {
        if self.locals.contains_key(name) {
            None
        } else {
            match self.globals.get(name) {
                Some(idx) => Some(*idx),
                None => None,
            }
        }
    }

    pub(crate) fn try_fuse_compare_const(&mut self, cond: &Expression) -> (r: Option<(u16, u16, Opcode)>)
        ensures
            (final(self)@, r) == fuse_compare(old(self)@, *cond),
    {
        proof {
            reveal(fuse_compare);
        }
        match cond {
            Expression::Infix { left, operator, right } => match &**left {
                Expression::Identifier(name) => {
                    let less: bool = str_eq(operator.as_str(), "<");
                    if !less && !str_eq(operator.as_str(), "<=") {
                        return None;
                    }
                    let idx: u16 = match self.number_constant(right, false) {
                        Some(idx) => idx,
                        None => {
                            return None;
                        },
                    };
                    match self.known_slot(name.as_str()) {
                        Some(Slot::Local(slot)) => Some(
                            (
                                slot,
                                idx,
                                if less {
                                    Opcode::OpTestLocalLtConstJump
                                } else {
                                    Opcode::OpTestLocalLeConstJump
                                },
                            ),
                        ),
                        Some(Slot::Global(slot)) => Some(
                            (
                                slot,
                                idx,
                                if less {
                                    Opcode::OpTestGlobalLtConstJump
                                } else {
                                    Opcode::OpTestGlobalLeConstJump
                                },
                            ),
                        ),
                        None => None,
                    }
                },
                _ => None,
            },
            _ => None,
        }
    }

    pub(crate) fn try_fuse_mod_strict_eq_const(&mut self, cond: &Expression) -> (r: Option<(u16, u16, u16)>)
        ensures
            (final(self)@, r) == fuse_mod_eq(old(self)@, *cond),
    {
        proof {
            reveal(fuse_mod_eq);
        }
        match cond {
            Expression::Infix { left, operator, right } => match &**left {
                Expression::Infix { left: dividend, operator: inner, right: divisor } =>
                match &**dividend {
                    Expression::Identifier(name) => {
                        if !str_eq(operator.as_str(), "===") || !str_eq(inner.as_str(), "%") {
                            return None;
                        }
                        let slot: u16 = match self.known_global(name.as_str()) {
                            Some(slot) => slot,
                            None => {
                                return None;
                            },
                        };
                        let modulus: u16 = match self.number_constant(divisor, false) {
                            Some(idx) => idx,
                            None => {
                                return None;
                            },
                        };
                        match self.number_constant(right, false) {
                            Some(expected) => Some((slot, modulus, expected)),
                            None => None,
                        }
                    },
                    _ => None,
                },
                _ => None,
            },
            _ => None,
        }
    }

    pub(crate) fn try_fuse_increment(&mut self, e: &Expression) -> (r: Option<(u16, u16, Opcode)>)
        ensures
            (final(self)@, r) == fuse_increment(old(self)@, *e),
    {
        proof {
            reveal(fuse_increment);
        }
        match find_increment(e) {
            None => None,
            Some((name, amount)) => {
                if self.is_const(name.as_str()) {
                    return None;
                }
                let idx: u16 = match self.number_constant(amount, false) {
                    Some(idx) => idx,
                    None => {
                        return None;
                    },
                };
                match self.known_slot(name.as_str()) {
                    Some(Slot::Local(slot)) => Some((slot, idx, Opcode::OpIncrementLocal)),
                    Some(Slot::Global(slot)) => Some((slot, idx, Opcode::OpIncrementGlobal)),
                    None => None,
                }
            },
        }
    }

    pub(crate) fn try_fuse_accumulate_global(&self, e: &Expression) -> (r: Option<(u16, u16)>)
        ensures
            r == fuse_accumulate(self@, *e),
    {
        proof {
            reveal(fuse_accumulate);
        }
        match find_increment(e) {
            Some((name, Expression::Identifier(source))) => {
                if self.is_const(name.as_str()) {
                    return None;
                }
                match (self.known_global(name.as_str()), self.known_global(source.as_str())) {
                    (Some(t), Some(u)) => Some((t, u)),
                    _ => None,
                }
            },
            _ => None,
        }
    }

    pub(crate) fn try_fuse_add_const_to_global_property(&mut self, e: &Expression) -> (r: Option<
        (u16, u16, u16, u16),
    >)
        ensures
            (final(self)@, r) == fuse_property_increment(old(self)@, *e),
    {
        proof {
            reveal(fuse_property_increment);
        }
        match find_property_increment(e) {
            None => None,
            Some((name, prop, amount, negate)) => {
                let slot: u16 = match self.known_global(name.as_str()) {
                    Some(slot) => slot,
                    None => {
                        return None;
                    },
                };
                let val: u16 = match self.number_constant(amount, negate) {
                    Some(idx) => idx,
                    None => {
                        return None;
                    },
                };
                let idx: u16 = self.add_constant_string(prop.as_str());
                let cache: u16 = self.take_cache_slot();
                Some((slot, idx, val, cache))
            },
        }
    }

    pub(crate) fn try_fuse_add_global_props_to_global_prop(&mut self, e: &Expression) -> (r: Option<Vec<u16>>)
        ensures
            final(self)@ == fuse_property_sum(old(self)@, *e).0,
            match r {
                Some(v) => fuse_property_sum(old(self)@, *e).1 == Some(v@),
                None => fuse_property_sum(old(self)@, *e).1 is None,
            },
    {
        proof {
            reveal(fuse_property_sum);
        }
        match find_property_sum(e) {
            None => None,
            Some((name, first, second, dst)) => {
                let slot: u16 = match self.known_global(name.as_str()) {
                    Some(slot) => slot,
                    None => {
                        return None;
                    },
                };
                let i1: u16 = self.add_constant_string(first.as_str());
                let c1: u16 = self.take_cache_slot();
                let i2: u16 = self.add_constant_string(second.as_str());
                let c2: u16 = self.take_cache_slot();
                let i3: u16 = self.add_constant_string(dst.as_str());
                let c3: u16 = self.take_cache_slot();
                let operands = vec![slot, i1, c1, i2, c2, i3, c3];
                assert(operands@ =~= seq![slot, i1, c1, i2, c2, i3, c3]);
                Some(operands)
            },
        }
    }

    fn function_scope(
        realm: Realm,
        globals: NameMap<u16>,
        next_global: u32,
        parameters: &Vec<String>,
    ) -> (c: Self)
        ensures
            c@ == (CompilerView {
                globals: globals@,
                next_global,
                ..CompilerView::start(realm@)
            }).function_scope(texts(parameters@)),
    {
        proof {
            reveal(CompilerView::function_scope);
            reveal(with_parameters);
        }
        let mut c = Compiler::in_realm(realm);
        let ghost outer = CompilerView { globals: globals@, next_global, ..c@ };
        let mut locals: NameMap<u16> = NameMap::new();
        let mut i: usize = 0;
        while i < parameters.len()
            invariant
                0 <= i <= parameters@.len(),
                with_parameters(locals@, texts(parameters@), i as int) == with_parameters(
                    Names::empty(),
                    texts(parameters@),
                    0,
                ),
            decreases parameters@.len() - i,
        {
            proof {
                reveal(with_parameters);
                assert(texts(parameters@)[i as int] == parameters@[i as int]@);
            }
            locals.insert(parameters[i].clone(), i as u16);
            i += 1;
        }
        c.globals = globals;
        c.next_global = next_global;
        c.locals = locals;
        c.next_local = parameters.len() as u16;
        c.is_function_scope = true;
        assert(c@ =~= outer.function_scope(texts(parameters@)));
        c
    }

    pub(crate) fn finish_function(&mut self)
        ensures
            final(self)@ == old(self)@.finish_function(),
    {
        proof {
            reveal(CompilerView::finish_function);
        }
        if self.last_opcode == Some(Opcode::OpPop) {
            self.remove_last_pop();
            self.emit0(Opcode::OpReturnValue);
        }
        if !(self.last_opcode == Some(Opcode::OpReturnValue) || self.last_opcode == Some(
            Opcode::OpReturn,
        )) {
            self.emit0(Opcode::OpReturn);
        }
        self.emit0(Opcode::OpHalt);
    }

    /// The function whose code this compiler holds, and what it shares with
    /// the enclosing scope.
    fn into_function(
        self,
        num_parameters: usize,
        rest_parameter_index: Option<usize>,
        takes_this: bool,
        is_async: bool,
        is_generator: bool,
    ) -> (r: (CompiledFunctionObject, Option<String>, Realm, u32, NameMap<u16>))
        ensures
            function_view(r.0) == self@.function(
                num_parameters,
                rest_parameter_index,
                takes_this,
                is_async,
                is_generator,
            ),
            label_view(r.1) == self@.err,
            r.2@ == self@.realm,
            r.3 == self@.next_global,
            r.4@ == self@.globals,
    {
        proof {
            reveal(CompilerView::function);
        }
        let depth: i32 = if self.max_stack_depth > 0 {
            self.max_stack_depth
        } else {
            0
        };
        let f = CompiledFunctionObject {
            instructions: Rc::new(self.instructions),
            constants: Rc::new(self.constants),
            num_locals: self.next_local as usize,
            num_parameters,
            rest_parameter_index,
            takes_this,
            is_async,
            is_generator,
            num_cache_slots: self.next_cache_slot,
            max_stack_depth: depth as u16,
            register_count: 0,
            inline_cache: Rc::new(VmCell::new(empty_cache(self.next_cache_slot))),
            closure_captures: Vec::new(),
            captured_values: Vec::new(),
        };
        (f, self.error, self.realm, self.next_global, self.globals)
    }

    /// A class without members of its own.
    pub(crate) fn make_bare_class(&self, name: &str, extends: Option<&String>) -> (c: ClassObject)
        ensures
            class_view(c) == bare_class(
                name@,
                match extends {
                    Some(n) => Some(n@),
                    None => None,
                },
                self@.class_defs,
            ),
    {
        match extends {
            Some(parent_name) => match self.class_defs.get(parent_name.as_str()) {
                Some(parent) => make_derived_class(name, Some((parent_name, parent))),
                None => make_derived_class(name, None),
            },
            None => make_derived_class(name, None),
        }
    }

    /// Whether the program was rejected.
    pub(crate) fn failed(&self) -> (r: bool)
        ensures
            r == self@.err is Some,
    {
        self.error.is_some()
    }

    /// The position of the next instruction.
    pub(crate) fn here(&self) -> (r: usize)
        ensures
            r == self@.here(),
    {
        proof {
            reveal(CompilerView::here);
        }
        self.instructions.len()
    }

    /// Whether a function's code is being compiled.
    pub(crate) fn in_function(&self) -> (r: bool)
        ensures
            r == self@.is_function_scope,
    {
        self.is_function_scope
    }

    /// Whether there is a variable of that name.
    pub(crate) fn knows(&self, name: &str) -> (r: bool)
        ensures
            r == (self@.locals.has(name@) || self@.globals.has(name@)),
    {
        self.locals.contains_key(name) || self.globals.contains_key(name)
    }

    /// Whether a name must not be assigned to.
    pub(crate) fn is_const(&self, name: &str) -> (r: bool)
        ensures
            r == self@.const_bindings.contains(name@),
    {
        self.const_bindings.contains(name)
    }

    /// Whether there is no enclosing `try` block.
    pub(crate) fn outside_try(&self) -> (r: bool)
        ensures
            r == (self@.try_stack.len() == 0),
    {
        self.try_stack.len() == 0
    }

    pub(crate) fn clear_elided(&mut self)
        ensures
            final(self)@ == old(self)@.clear_elided(),
    {
        proof {
            reveal(CompilerView::clear_elided);
        }
        self.elided_trailing_get = None;
    }

    pub(crate) fn set_elided(&mut self, op: Opcode, slot: u16)
        ensures
            final(self)@ == old(self)@.set_elided(op, slot),
    {
        proof {
            reveal(CompilerView::set_elided);
        }
        self.elided_trailing_get = Some((op, slot));
    }

    pub(crate) fn declare_const(&mut self, name: &String)
        ensures
            final(self)@ == old(self)@.declare_const(name@),
    {
        proof {
            reveal(CompilerView::declare_const);
        }
        self.const_bindings.insert(name.clone());
    }

    pub(crate) fn declare_consts(&mut self, names: &Vec<String>)
        ensures
            final(self)@ == old(self)@.declare_consts(texts(names@)),
    {
        proof {
            reveal(CompilerView::declare_consts);
        }
        let mut i: usize = 0;
        while i < names.len()
            invariant
                0 <= i <= names@.len(),
                self@ == (CompilerView { const_bindings: self@.const_bindings, ..old(self)@ }),
                with_names(self@.const_bindings, texts(names@), i as int) == with_names(
                    old(self)@.const_bindings,
                    texts(names@),
                    0,
                ),
            decreases names@.len() - i,
        {
            proof {
                reveal(with_names);
                assert(texts(names@)[i as int] == names@[i as int]@);
            }
            self.const_bindings.insert(names[i].clone());
            i += 1;
        }
        proof {
            reveal(with_names);
        }
    }

    pub(crate) fn define_class(&mut self, name: &String, class: ClassObject)
        ensures
            final(self)@ == old(self)@.define_class(name@, class_view(class)),
    {
        proof {
            reveal(CompilerView::define_class);
        }
        insert_class(&mut self.class_defs, name.clone(), class);
    }

    pub(crate) fn open_try(&mut self, exception: &String)
        ensures
            final(self)@ == old(self)@.open_try(exception@),
    {
        proof {
            reveal(CompilerView::open_try);
        }
        let ghost before = self.try_stack@;
        self.try_stack.push(
            TryContext { exception_temp: exception.clone(), throw_jumps: Vec::new() },
        );
        assert(tries_view(self.try_stack@) =~= tries_view(before).push(
            TryView { exception_temp: exception@, throw_jumps: Seq::empty() },
        ));
    }

    pub(crate) fn close_try(&mut self)
        ensures
            final(self)@ == old(self)@.close_try(),
    {
        proof {
            reveal(CompilerView::close_try);
            reveal(CompilerView::here);
        }
        let ghost before = self.try_stack@;
        match self.try_stack.pop() {
            Some(ctx) => {
                assert(tries_view(self.try_stack@) =~= tries_view(before).drop_last());
                assert(tries_view(before).last() == try_view(ctx));
                let here: usize = self.instructions.len();
                self.change_operands(&ctx.throw_jumps, here);
            },
            None => self.fail("internal error: missing try context".to_owned()),
        }
    }

    fn add_throw(&mut self, jump: usize)
        ensures
            final(self)@ == old(self)@.add_throw(jump),
    {
        proof {
            reveal(CompilerView::add_throw);
        }
        let n: usize = self.try_stack.len();
        if n > 0 {
            let ghost before = self.try_stack@;
            self.try_stack[n - 1].throw_jumps.push(jump);
            assert(tries_view(self.try_stack@) =~= tries_view(before).update(
                n - 1,
                TryView {
                    throw_jumps: before[n - 1].throw_jumps@.push(jump),
                    ..try_view(before[n - 1])
                },
            ));
        }
    }

    /// Throw the exception on top of the stack: to the innermost handler, or out of
    /// the code.
    pub(crate) fn throw_top(&mut self)
        ensures
            final(self)@ == old(self)@.throw_top(),
    {
        proof {
            reveal(CompilerView::throw_top);
        }
        if self.outside_try() {
            self.emit0(Opcode::OpThrow);
        } else {
            self.throw_to_handler();
        }
    }

    pub(crate) fn throw_to_handler(&mut self)
        ensures
            final(self)@ == old(self)@.throw_to_handler(),
    {
        proof {
            reveal(CompilerView::throw_to_handler);
        }
        let n: usize = self.try_stack.len();
        let exception = if n > 0 {
            assert(self@.try_stack[n - 1] == try_view(self.try_stack@[n - 1]));
            self.try_stack[n - 1].exception_temp.clone()
        } else {
            self.make_temp_name("exc_fallback")
        };
        self.assign_identifier_from_top(exception.as_str());
        let jump: usize = self.emit1(Opcode::OpJump, PLACEHOLDER);
        self.add_throw(jump);
        self.emit0(Opcode::OpNull);
    }

    /// A compiler for a function inside this scope. Takes the realm along.
    pub(crate) fn enter_function(&mut self, parameters: &Vec<String>) -> (inner: Self)
        ensures
            inner@ == old(self)@.function_scope(texts(parameters@)),
            forall|i: CompilerView| #[trigger]
                final(self)@.after_function(i) == old(self)@.after_function(i),
    {
        proof {
            reveal(CompilerView::function_scope);
            reveal(CompilerView::after_function);
        }
        let mut realm = Realm::new();
        core::mem::swap(&mut self.realm, &mut realm);
        Compiler::function_scope(realm, self.globals.copy(), self.next_global, parameters)
    }

    /// Take back what a function inside this scope shares with it, and make the
    /// function.
    pub(crate) fn leave_function(
        &mut self,
        inner: Compiler,
        num_parameters: usize,
        rest_parameter_index: Option<usize>,
        takes_this: bool,
        is_async: bool,
        is_generator: bool,
    ) -> (f: CompiledFunctionObject)
        ensures
            final(self)@ == old(self)@.after_function(inner@),
            function_view(f) == inner@.function(
                num_parameters,
                rest_parameter_index,
                takes_this,
                is_async,
                is_generator,
            ),
    {
        proof {
            reveal(CompilerView::after_function);
        }
        let (f, error, realm, next_global, globals) = inner.into_function(
            num_parameters,
            rest_parameter_index,
            takes_this,
            is_async,
            is_generator,
        );
        if self.error.is_none() {
            self.error = error;
        }
        self.realm = realm;
        if next_global > self.next_global {
            self.next_global = next_global;
        }
        self.globals.adopt(&globals);
        f
    }

    /// The compiled program, or the reason why it was rejected.
    pub(crate) fn into_bytecode(self) -> (r: Result<Bytecode, String>)
        ensures
            match self@.err {
                None => r matches Ok(b) && b@ == program_bytecode(self@),
                Some(message) => r matches Err(e) && e@ == message,
            },
    {
        if let Some(message) = self.error {
            return Err(message);
        }
        let depth: i32 = if self.max_stack_depth > 0 {
            self.max_stack_depth
        } else {
            0
        };
        Ok(
            Bytecode::with_cache_slots(
                self.realm,
                self.instructions,
                self.constants,
                Vec::new(),
                self.next_cache_slot,
                depth as u16,
                0,
            ),
        )
    }
}

/// A class that has only what it inherits.
pub(crate) fn make_derived_class(name: &str, parent: Option<(&String, &ClassObject)>) -> (c:
    ClassObject)
    ensures
        class_view(c) == derived_class(
            name@,
            match parent {
                Some((n, p)) => Some((n@, class_view(*p))),
                None => None,
            },
        ),
        super_levels_view(c.super_constructor_chain) == Seq::<SuperLevelView>::empty(),
{
    let mut c = ClassObject {
        name: name.to_owned(),
        parent_chain: Vec::new(),
        constructor: None,
        methods: new_functions(),
        static_methods: new_functions(),
        getters: new_functions(),
        setters: new_functions(),
        super_methods: new_functions(),
        super_getters: new_functions(),
        super_setters: new_functions(),
        super_constructor_chain: Vec::new(),
        field_initializers: Vec::new(),
        static_initializers: Vec::new(),
        static_fields: new_objects(),
    };
    assert(strings_view(c.parent_chain) =~= Seq::empty());
    assert(super_levels_view(c.super_constructor_chain) =~= Seq::empty());
    assert(field_initializers_view(c.field_initializers) =~= Seq::empty());
    assert(static_initializers_view(c.static_initializers) =~= Seq::empty());
    if let Some((parent_name, parent)) = parent {
        let mut chain: Vec<String> = Vec::new();
        chain.push(parent_name.clone());
        let mut inherited = copy_strings(&parent.parent_chain);
        let ghost tail = strings_view(inherited);
        chain.append(&mut inherited);
        assert(strings_view(chain) =~= seq![parent_name@] + tail);
        c.parent_chain = chain;
        c.methods = copy_functions(&parent.methods);
        c.getters = copy_functions(&parent.getters);
        c.setters = copy_functions(&parent.setters);
        let mut super_methods = copy_functions(&parent.methods);
        if let Some(f) = &parent.constructor {
            insert_function(&mut super_methods, "constructor".to_owned(), f.dup());
        }
        c.super_methods = super_methods;
        c.super_getters = copy_functions(&parent.getters);
        c.super_setters = copy_functions(&parent.setters);
        c.field_initializers = copy_fields(&parent.field_initializers);
    }
    c
}

/// The text of a label.
pub open spec fn label_text(label: Option<&str>) -> Option<Seq<char>> {
    match label {
        Some(l) => Some(l@),
        None => None,
    }
}

/// The variable and the amount of `name += amount` or `name = name + amount`.
pub(crate) fn find_increment(e: &Expression) -> (r: Option<(&String, &Expression)>)
    ensures
        match r {
            Some((name, amount)) => increment_operand(*e) == Some((name@, *amount)),
            None => increment_operand(*e) is None,
        },
{
    match e {
        Expression::Assign { left, operator, right } => match &**left {
            Expression::Identifier(name) => if str_eq(operator.as_str(), "+=") {
                Some((name, &**right))
            } else if str_eq(operator.as_str(), "=") {
                match &**right {
                    Expression::Infix { left: base, operator: plus, right: amount } =>
                    match &**base {
                        Expression::Identifier(other) => if str_eq(plus.as_str(), "+") && str_eq(
                            other.as_str(),
                            name.as_str(),
                        ) {
                            Some((name, &**amount))
                        } else {
                            None
                        },
                        _ => None,
                    },
                    _ => None,
                }
            } else {
                None
            },
            _ => None,
        },
        _ => None,
    }
}

/// The variable and property of `name.prop`.
pub(crate) fn find_property(e: &Expression) -> (r: Option<(&String, &String)>)
    ensures
        match r {
            Some((name, prop)) => name_and_property(*e) == Some((name@, prop@)),
            None => name_and_property(*e) is None,
        },
{
    match e {
        Expression::Index { left, index } => match (&**left, &**index) {
            (Expression::Identifier(name), Expression::String(prop)) => Some((name, prop)),
            _ => None,
        },
        _ => None,
    }
}

fn find_property_increment(e: &Expression) -> (r: Option<(&String, &String, &Expression, bool)>)
    ensures
        match r {
            Some((name, prop, amount, negate)) => property_increment(*e) == Some(
                (name@, prop@, *amount, negate),
            ),
            None => property_increment(*e) is None,
        },
{
    match e {
        Expression::Assign { left, operator, right } => match find_property(left) {
            None => None,
            Some((name, prop)) => if str_eq(operator.as_str(), "+=") {
                Some((name, prop, &**right, false))
            } else if str_eq(operator.as_str(), "-=") {
                Some((name, prop, &**right, true))
            } else if str_eq(operator.as_str(), "=") {
                match &**right {
                    Expression::Infix { left: base, operator: sign, right: amount } => {
                        let minus: bool = str_eq(sign.as_str(), "-");
                        if !minus && !str_eq(sign.as_str(), "+") {
                            return None;
                        }
                        match find_property(base) {
                            Some((name2, prop2)) => if str_eq(name2.as_str(), name.as_str())
                                && str_eq(prop2.as_str(), prop.as_str()) {
                                Some((name, prop, &**amount, minus))
                            } else {
                                None
                            },
                            None => None,
                        }
                    },
                    _ => None,
                }
            } else {
                None
            },
        },
        _ => None,
    }
}

pub(crate) fn find_property_sum(e: &Expression) -> (r: Option<(&String, &String, &String, &String)>)
    ensures
        match r {
            Some((name, first, second, dst)) => property_sum(*e) == Some(
                (name@, first@, second@, dst@),
            ),
            None => property_sum(*e) is None,
        },
{
    match e {
        Expression::Assign { left, operator, right } => match find_property(left) {
            Some((name, dst)) => match &**right {
                Expression::Infix { left: a, operator: plus, right: b } => match (
                    find_property(a),
                    find_property(b),
                ) {
                    (Some((name1, first)), Some((name2, second))) => if str_eq(
                        operator.as_str(),
                        "=",
                    ) && str_eq(plus.as_str(), "+") && str_eq(name1.as_str(), name.as_str())
                        && str_eq(name2.as_str(), name.as_str()) {
                        Some((name, first, second, dst))
                    } else {
                        None
                    },
                    _ => None,
                },
                _ => None,
            },
            None => None,
        },
        _ => None,
    }
}

/// The opcode that a compound assignment applies before it stores.
pub(crate) fn compound_op(operator: &str) -> (r: Option<Opcode>)
    ensures
        r == compound_opcode(operator@),
{
    proof {
        reveal(compound_opcode);
    }
    if str_eq(operator, "+=") {
        Some(Opcode::OpAdd)
    } else if str_eq(operator, "-=") {
        Some(Opcode::OpSub)
    } else if str_eq(operator, "*=") {
        Some(Opcode::OpMul)
    } else if str_eq(operator, "/=") {
        Some(Opcode::OpDiv)
    } else if str_eq(operator, "%=") {
        Some(Opcode::OpMod)
    } else if str_eq(operator, "**=") {
        Some(Opcode::OpPow)
    } else if str_eq(operator, "&=") {
        Some(Opcode::OpBitwiseAnd)
    } else if str_eq(operator, "|=") {
        Some(Opcode::OpBitwiseOr)
    } else if str_eq(operator, "^=") {
        Some(Opcode::OpBitwiseXor)
    } else if str_eq(operator, "<<=") {
        Some(Opcode::OpLeftShift)
    } else if str_eq(operator, ">>=") {
        Some(Opcode::OpRightShift)
    } else if str_eq(operator, ">>>=") {
        Some(Opcode::OpUnsignedRightShift)
    } else {
        None
    }
}

/// The opcode of a binary operator that evaluates both of its operands.
pub(crate) fn infix_op(operator: &str) -> (r: Option<Opcode>)
    ensures
        r == infix_opcode(operator@),
{
    proof {
        reveal(infix_opcode);
    }
    if str_eq(operator, "+") {
        Some(Opcode::OpAdd)
    } else if str_eq(operator, "-") {
        Some(Opcode::OpSub)
    } else if str_eq(operator, "*") {
        Some(Opcode::OpMul)
    } else if str_eq(operator, "/") {
        Some(Opcode::OpDiv)
    } else if str_eq(operator, "%") {
        Some(Opcode::OpMod)
    } else if str_eq(operator, "**") {
        Some(Opcode::OpPow)
    } else if str_eq(operator, "==") {
        Some(Opcode::OpEqual)
    } else if str_eq(operator, "!=") {
        Some(Opcode::OpNotEqual)
    } else if str_eq(operator, "===") {
        Some(Opcode::OpStrictEqual)
    } else if str_eq(operator, "!==") {
        Some(Opcode::OpStrictNotEqual)
    } else if str_eq(operator, ">") {
        Some(Opcode::OpGreaterThan)
    } else if str_eq(operator, "<") {
        Some(Opcode::OpLessThan)
    } else if str_eq(operator, ">=") {
        Some(Opcode::OpGreaterOrEqual)
    } else if str_eq(operator, "<=") {
        Some(Opcode::OpLessOrEqual)
    } else if str_eq(operator, "&") {
        Some(Opcode::OpBitwiseAnd)
    } else if str_eq(operator, "|") {
        Some(Opcode::OpBitwiseOr)
    } else if str_eq(operator, "^") {
        Some(Opcode::OpBitwiseXor)
    } else if str_eq(operator, "<<") {
        Some(Opcode::OpLeftShift)
    } else if str_eq(operator, ">>") {
        Some(Opcode::OpRightShift)
    } else if str_eq(operator, ">>>") {
        Some(Opcode::OpUnsignedRightShift)
    } else if str_eq(operator, "in") {
        Some(Opcode::OpIn)
    } else if str_eq(operator, "instanceof") {
        Some(Opcode::OpInstanceof)
    } else {
        None
    }
}

/// A cache without entries.
pub(crate) fn empty_cache(n: u16) -> (v: Vec<(u32, u32)>)
    ensures
        v@ == Seq::new(n as nat, |i: int| (0u32, 0u32)),
{
    let mut v: Vec<(u32, u32)> = Vec::new();
    let mut i: u16 = 0;
    while i < n
        invariant
            0 <= i <= n,
            v@ =~= Seq::new(i as nat, |k: int| (0u32, 0u32)),
        decreases n - i,
    {
        v.push((0, 0));
        i += 1;
    }
    v
}

/// File a class under a name.
pub(crate) fn insert_class(t: &mut NameMap<ClassObject>, name: String, class: ClassObject)
    ensures
        class_table_view(*final(t)) == class_table_view(*old(t)).set(name@, class_view(class)),
{
    let ghost key = name@;
    t.insert(name, class);
    assert(class_table_view(*t) =~= class_table_view(*old(t)).set(key, class_view(class)));
}

/// A function without code.
pub(crate) fn blank() -> (f: CompiledFunctionObject)
    ensures
        function_view(f) == blank_function(),
{
    let f = CompiledFunctionObject {
        instructions: Rc::new(Vec::new()),
        constants: Rc::new(Vec::new()),
        num_locals: 0,
        num_parameters: 0,
        rest_parameter_index: None,
        takes_this: false,
        is_async: false,
        is_generator: false,
        num_cache_slots: 0,
        max_stack_depth: 0,
        register_count: 0,
        inline_cache: Rc::new(VmCell::new(Vec::new())),
        closure_captures: Vec::new(),
        captured_values: Vec::new(),
    };
    assert(objects_view(*f.constants) =~= Seq::empty());
    f
}

/// The contents of strings.
pub open spec fn texts(v: Seq<String>) -> Seq<Seq<char>> {
    Seq::new(v.len(), |i: int| v[i]@)
}

/// The program whose code a compiler's state holds.
pub open spec fn program_bytecode(s: CompilerView) -> BytecodeView {
    BytecodeView {
        instructions: s.instructions,
        constants: s.constants,
        line_number_table: Seq::empty(),
        num_cache_slots: s.next_cache_slot,
        max_stack_depth: (if s.max_depth > 0 {
            s.max_depth
        } else {
            0
        }) as u16,
        register_count: 0,
        globals_table: Names::empty(),
        realm: s.realm,
    }
}

} // verus!
