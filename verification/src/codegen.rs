//! The state of the stack compiler, and what each of its elementary steps does
//! to it.
use vstd::prelude::*;

use crate::ast::{Expression, VariableKind};
use crate::builtins::{global_member, member_object};
use crate::code::{encode, Opcode};
use crate::names::Names;
use crate::object::{ClassView, FunctionView, ObjectView};
use crate::realm::RealmView;
use crate::text::decimal;

verus! {

/// The operand of a jump whose target is not known yet.
pub const PLACEHOLDER: u16 = 9999;

/// The number of slots for global variables.
pub const GLOBALS_SIZE: u32 = 65536;

/// A loop or switch that is being compiled: its label, where `continue` goes,
/// and the jumps that are to be patched once its end is known.
#[verifier::ext_equal]
pub struct LoopView {
    pub label: Option<Seq<char>>,
    pub continue_target: usize,
    pub break_positions: Seq<usize>,
    pub continue_positions: Seq<usize>,
}

/// A `try` block that is being compiled: the variable that holds the exception,
/// and the jumps to its handler.
#[verifier::ext_equal]
pub struct TryView {
    pub exception_temp: Seq<char>,
    pub throw_jumps: Seq<usize>,
}

/// Where a variable lives.
#[derive(Clone, Copy, Debug, PartialEq, Eq, Structural)]
pub enum Slot {
    Local(u16),
    Global(u16),
}

/// The state of a stack compiler. Once `err` is set the program is rejected
/// with that message, and nothing else of the state counts.
#[verifier::ext_equal]
pub struct CompilerView {
    pub err: Option<Seq<char>>,
    pub realm: RealmView,
    pub instructions: Seq<u8>,
    pub constants: Seq<ObjectView>,
    pub globals: Names<u16>,
    pub next_global: u32,
    pub locals: Names<u16>,
    pub class_defs: Names<ClassView>,
    pub next_local: u16,
    pub is_function_scope: bool,
    pub last_opcode: Option<Opcode>,
    pub last_position: usize,
    pub loop_stack: Seq<LoopView>,
    pub temp_counter: u64,
    pub try_stack: Seq<TryView>,
    pub string_slots: Map<Seq<char>, usize>,
    pub int_slots: Map<u64, usize>,
    pub float_slots: Map<u64, usize>,
    pub next_cache_slot: u16,
    pub depth: i32,
    pub max_depth: i32,
    pub elided: Option<(Opcode, u16)>,
    pub const_bindings: Set<Seq<char>>,
}

/// The 16-bit counter after `n`; counters wrap around.
pub open spec fn next16(n: u16) -> u16 {
    if n == 0xffff {
        0
    } else {
        (n + 1) as u16
    }
}

/// The 64-bit counter after `n`; counters wrap around.
pub open spec fn next64(n: u64) -> u64 {
    if n == u64::MAX {
        0
    } else {
        (n + 1) as u64
    }
}

/// A stack depth changed by `effect`, kept within the range of the counter.
pub open spec fn moved_depth(depth: i32, effect: int) -> i32 {
    if depth + effect > i32::MAX {
        i32::MAX
    } else if depth + effect < i32::MIN {
        i32::MIN
    } else {
        (depth + effect) as i32
    }
}

/// A hidden variable's name.
pub open spec fn temp_name(prefix: Seq<char>, n: u64) -> Seq<char> {
    "__fl_"@ + prefix + "_"@ + decimal(n as nat)
}

/// Code with the two bytes at `at` replaced by an operand, if both lie within
/// the code.
pub open spec fn patched(code: Seq<u8>, at: int, operand: u16) -> Seq<u8> {
    if at + 1 >= code.len() {
        code
    } else {
        code.update(at, (operand / 256) as u8).update(at + 1, (operand % 256) as u8)
    }
}

/// Code with the byte at `at` replaced, if it lies within the code.
pub open spec fn with_byte(code: Seq<u8>, at: int, byte: u8) -> Seq<u8> {
    if at >= code.len() {
        code
    } else {
        code.update(at, byte)
    }
}

/// How many values an instruction leaves on the stack, less how many it takes
/// off. An estimate for the opcodes with a variable number of operands.
pub open spec fn stack_effect(op: Opcode, operands: Seq<u16>) -> int {
    let first = if operands.len() > 0 {
        operands[0] as int
    } else {
        0
    };
    let second = if operands.len() > 1 {
        operands[1] as int
    } else {
        0
    };
    match op {
        Opcode::OpConstant
        | Opcode::OpTrue
        | Opcode::OpFalse
        | Opcode::OpNull
        | Opcode::OpUndefined
        | Opcode::OpGetGlobal
        | Opcode::OpGetLocal
        | Opcode::OpGetKeysIterator
        | Opcode::OpGetLocalProperty
        | Opcode::OpGetGlobalProperty
        | Opcode::OpNewTarget
        | Opcode::OpImportMeta
        | Opcode::OpSuper => 1,
        Opcode::OpAdd
        | Opcode::OpSub
        | Opcode::OpMul
        | Opcode::OpDiv
        | Opcode::OpMod
        | Opcode::OpPow
        | Opcode::OpEqual
        | Opcode::OpNotEqual
        | Opcode::OpGreaterThan
        | Opcode::OpLessThan
        | Opcode::OpLessOrEqual
        | Opcode::OpGreaterOrEqual
        | Opcode::OpStrictEqual
        | Opcode::OpStrictNotEqual
        | Opcode::OpIndex
        | Opcode::OpInstanceof
        | Opcode::OpIn
        | Opcode::OpBitwiseAnd
        | Opcode::OpBitwiseOr
        | Opcode::OpBitwiseXor
        | Opcode::OpLeftShift
        | Opcode::OpRightShift
        | Opcode::OpUnsignedRightShift
        | Opcode::OpDeleteProperty
        | Opcode::OpIteratorRest
        | Opcode::OpAppendElement
        | Opcode::OpAppendSpread
        | Opcode::OpPop
        | Opcode::OpSetGlobal
        | Opcode::OpSetLocal
        | Opcode::OpThrow
        | Opcode::OpReturnValue
        | Opcode::OpSetLocalPropertyPop
        | Opcode::OpSetGlobalPropertyPop
        | Opcode::OpJumpNotTruthy
        | Opcode::OpDefineAccessor => -1,
        Opcode::OpSetIndex => -2,
        Opcode::OpArray | Opcode::OpHash | Opcode::OpObjectRest => 1 - first,
        Opcode::OpCall | Opcode::OpNew => -first,
        Opcode::OpCallGlobal => 1 - second,
        _ => 0,
    }
}

/// The opcode of a binary operator that evaluates both of its operands.
#[verifier::opaque]
pub open spec fn infix_opcode(operator: Seq<char>) -> Option<Opcode> {
    if operator == "+"@ {
        Some(Opcode::OpAdd)
    } else if operator == "-"@ {
        Some(Opcode::OpSub)
    } else if operator == "*"@ {
        Some(Opcode::OpMul)
    } else if operator == "/"@ {
        Some(Opcode::OpDiv)
    } else if operator == "%"@ {
        Some(Opcode::OpMod)
    } else if operator == "**"@ {
        Some(Opcode::OpPow)
    } else if operator == "=="@ {
        Some(Opcode::OpEqual)
    } else if operator == "!="@ {
        Some(Opcode::OpNotEqual)
    } else if operator == "==="@ {
        Some(Opcode::OpStrictEqual)
    } else if operator == "!=="@ {
        Some(Opcode::OpStrictNotEqual)
    } else if operator == ">"@ {
        Some(Opcode::OpGreaterThan)
    } else if operator == "<"@ {
        Some(Opcode::OpLessThan)
    } else if operator == ">="@ {
        Some(Opcode::OpGreaterOrEqual)
    } else if operator == "<="@ {
        Some(Opcode::OpLessOrEqual)
    } else if operator == "&"@ {
        Some(Opcode::OpBitwiseAnd)
    } else if operator == "|"@ {
        Some(Opcode::OpBitwiseOr)
    } else if operator == "^"@ {
        Some(Opcode::OpBitwiseXor)
    } else if operator == "<<"@ {
        Some(Opcode::OpLeftShift)
    } else if operator == ">>"@ {
        Some(Opcode::OpRightShift)
    } else if operator == ">>>"@ {
        Some(Opcode::OpUnsignedRightShift)
    } else if operator == "in"@ {
        Some(Opcode::OpIn)
    } else if operator == "instanceof"@ {
        Some(Opcode::OpInstanceof)
    } else {
        None
    }
}

/// The opcode that a compound assignment applies before it stores.
#[verifier::opaque]
pub open spec fn compound_opcode(operator: Seq<char>) -> Option<Opcode> {
    if operator == "+="@ {
        Some(Opcode::OpAdd)
    } else if operator == "-="@ {
        Some(Opcode::OpSub)
    } else if operator == "*="@ {
        Some(Opcode::OpMul)
    } else if operator == "/="@ {
        Some(Opcode::OpDiv)
    } else if operator == "%="@ {
        Some(Opcode::OpMod)
    } else if operator == "**="@ {
        Some(Opcode::OpPow)
    } else if operator == "&="@ {
        Some(Opcode::OpBitwiseAnd)
    } else if operator == "|="@ {
        Some(Opcode::OpBitwiseOr)
    } else if operator == "^="@ {
        Some(Opcode::OpBitwiseXor)
    } else if operator == "<<="@ {
        Some(Opcode::OpLeftShift)
    } else if operator == ">>="@ {
        Some(Opcode::OpRightShift)
    } else if operator == ">>>="@ {
        Some(Opcode::OpUnsignedRightShift)
    } else {
        None
    }
}

/// Whether an assignment evaluates its right side only on some condition.
pub open spec fn is_logical_assignment(operator: Seq<char>) -> bool {
    operator == "&&="@ || operator == "||="@ || operator == "??="@
}

/// The innermost loop that a `break` or `continue` means, at or below `n`.
pub open spec fn loop_index(stack: Seq<LoopView>, label: Option<Seq<char>>, n: int) -> Option<int>
    decreases n,
{
    if n <= 0 {
        None
    } else if label is None || stack[n - 1].label == label {
        Some(n - 1)
    } else {
        loop_index(stack, label, n - 1)
    }
}

/// A list of loops without the switch that is its last entry. A `continue` in the
/// switch belongs to the loop or switch around it.
pub open spec fn without_switch(stack: Seq<LoopView>) -> Seq<LoopView> {
    let inner = stack.last();
    let rest = stack.drop_last();
    if rest.len() == 0 {
        rest
    } else {
        let outer = rest.last();
        rest.update(
            rest.len() - 1,
            LoopView {
                continue_positions: outer.continue_positions + inner.continue_positions,
                ..outer
            },
        )
    }
}

/// A set of names with those of a list from position `i` on added.
#[verifier::opaque]
pub open spec fn with_names(set: Set<Seq<char>>, names: Seq<Seq<char>>, i: int) -> Set<Seq<char>>
    decreases names.len() - i,
{
    if i < 0 || i >= names.len() {
        set
    } else {
        with_names(set.insert(names[i]), names, i + 1)
    }
}

/// A name table with each name from position `i` on set to its own position.
#[verifier::opaque]
pub open spec fn with_parameters(t: Names<u16>, names: Seq<Seq<char>>, i: int) -> Names<u16>
    decreases names.len() - i,
{
    if i < 0 || i >= names.len() {
        t
    } else {
        with_parameters(t.set(names[i], i as u16), names, i + 1)
    }
}

impl CompilerView {
    /// The state in which a program's compilation starts.
    pub open spec fn start(realm: RealmView) -> Self {
        CompilerView {
            err: None,
            realm,
            instructions: Seq::empty(),
            constants: Seq::empty(),
            globals: Names::empty(),
            next_global: 0,
            locals: Names::empty(),
            class_defs: Names::empty(),
            next_local: 0,
            is_function_scope: false,
            last_opcode: None,
            last_position: 0,
            loop_stack: Seq::empty(),
            temp_counter: 0,
            try_stack: Seq::empty(),
            string_slots: Map::empty(),
            int_slots: Map::empty(),
            float_slots: Map::empty(),
            next_cache_slot: 0,
            depth: 0,
            max_depth: 0,
            elided: None,
            const_bindings: Set::empty(),
        }
    }

    /// The state in which a function's compilation starts, inside `self`.
    #[verifier::opaque]
    pub open spec fn function_scope(self, parameters: Seq<Seq<char>>) -> Self {
        CompilerView {
            globals: self.globals,
            next_global: self.next_global,
            locals: with_parameters(Names::empty(), parameters, 0),
            next_local: parameters.len() as u16,
            is_function_scope: true,
            ..Self::start(self.realm)
        }
    }

    /// The state after the program was found to be wrong.
    #[verifier::opaque]
    pub open spec fn fail(self, message: Seq<char>) -> Self {
        if self.err is Some {
            self
        } else {
            CompilerView { err: Some(message), ..self }
        }
    }

    /// The position of the next instruction.
    #[verifier::opaque]
    pub open spec fn here(self) -> usize {
        self.instructions.len() as usize
    }

    /// Add an instruction. Its position has to be one that can be counted.
    #[verifier::opaque]
    pub open spec fn emit(self, op: Opcode, operands: Seq<u16>) -> Self {
        let depth = moved_depth(self.depth, stack_effect(op, operands));
        CompilerView {
            err: if self.err is None && self.instructions.len() > usize::MAX {
                Some("code too large"@)
            } else {
                self.err
            },
            instructions: self.instructions + encode(op, operands),
            last_opcode: Some(op),
            last_position: self.here(),
            depth,
            max_depth: if depth > self.max_depth {
                depth
            } else {
                self.max_depth
            },
            ..self
        }
    }

    /// An instruction without operands.
    #[verifier::opaque]
    pub open spec fn emit0(self, op: Opcode) -> Self {
        self.emit(op, seq![])
    }

    /// An instruction with one operand.
    #[verifier::opaque]
    pub open spec fn emit1(self, op: Opcode, a: u16) -> Self {
        self.emit(op, seq![a])
    }

    /// Set the operand that starts `offset` bytes into the operands of the
    /// instruction at `pos`.
    #[verifier::opaque]
    pub open spec fn patch(self, pos: usize, offset: int, target: usize) -> Self {
        CompilerView {
            instructions: patched(self.instructions, pos + 1 + offset, target as u16),
            ..self
        }
    }

    /// Set the operand of each of the jumps from position `i` of a list on.
    #[verifier::opaque]
    pub open spec fn patch_all(self, positions: Seq<usize>, i: int, target: usize) -> Self
        decreases positions.len() - i,
    {
        if i < 0 || i >= positions.len() {
            self
        } else {
            self.patch(positions[i], 0, target).patch_all(positions, i + 1, target)
        }
    }

    /// Take a name for a hidden variable.
    #[verifier::opaque]
    pub open spec fn after_temp(self) -> Self {
        CompilerView { temp_counter: next64(self.temp_counter), ..self }
    }

    #[verifier::opaque]
    pub open spec fn temp(self, prefix: Seq<char>) -> Seq<char> {
        temp_name(prefix, self.temp_counter)
    }

    #[verifier::opaque]
    pub open spec fn after_cache_slot(self) -> Self {
        CompilerView { next_cache_slot: next16(self.next_cache_slot), ..self }
    }

    /// Forget the load that was left out.
    #[verifier::opaque]
    pub open spec fn clear_elided(self) -> Self {
        CompilerView { elided: None, ..self }
    }

    /// Remember a load that was left out.
    #[verifier::opaque]
    pub open spec fn set_elided(self, op: Opcode, slot: u16) -> Self {
        CompilerView { elided: Some((op, slot)), ..self }
    }

    /// Forbid assignments to a name.
    #[verifier::opaque]
    pub open spec fn declare_const(self, name: Seq<char>) -> Self {
        CompilerView { const_bindings: self.const_bindings.insert(name), ..self }
    }

    /// Forbid assignments to names.
    #[verifier::opaque]
    pub open spec fn declare_consts(self, names: Seq<Seq<char>>) -> Self {
        CompilerView { const_bindings: with_names(self.const_bindings, names, 0), ..self }
    }

    /// File a class under a name.
    #[verifier::opaque]
    pub open spec fn define_class(self, name: Seq<char>, class: ClassView) -> Self {
        CompilerView { class_defs: self.class_defs.set(name, class), ..self }
    }

    /// Enter a `try` block.
    #[verifier::opaque]
    pub open spec fn open_try(self, exception: Seq<char>) -> Self {
        CompilerView {
            try_stack: self.try_stack.push(
                TryView { exception_temp: exception, throw_jumps: Seq::empty() },
            ),
            ..self
        }
    }

    /// Leave a `try` block, or a `catch` block that a `finally` block follows, and
    /// let the throws in it jump to the next instruction.
    #[verifier::opaque]
    pub open spec fn close_try(self) -> Self {
        if self.try_stack.len() == 0 {
            self.fail("internal error: missing try context"@)
        } else {
            CompilerView { try_stack: self.try_stack.drop_last(), ..self }.patch_all(
                self.try_stack.last().throw_jumps,
                0,
                self.here(),
            )
        }
    }

    /// Add a jump to the innermost handler, if there is one.
    #[verifier::opaque]
    pub open spec fn add_throw(self, jump: usize) -> Self {
        let n = self.try_stack.len() - 1;
        if n < 0 {
            self
        } else {
            CompilerView {
                try_stack: self.try_stack.update(
                    n,
                    TryView {
                        throw_jumps: self.try_stack[n].throw_jumps.push(jump),
                        ..self.try_stack[n]
                    },
                ),
                ..self
            }
        }
    }

    /// Leave the exception on top of the stack to the innermost handler.
    #[verifier::opaque]
    pub open spec fn throw_to_handler(self) -> Self {
        let n = self.try_stack.len() - 1;
        let (exception, s) = if n >= 0 {
            (self.try_stack[n].exception_temp, self)
        } else {
            (self.temp("exc_fallback"@), self.after_temp())
        };
        let s = s.assign_top(exception);
        s.emit1(Opcode::OpJump, PLACEHOLDER).add_throw(s.here()).emit0(Opcode::OpNull)
    }

    /// Throw the exception on top of the stack: to the innermost handler, or out of
    /// the code.
    #[verifier::opaque]
    pub open spec fn throw_top(self) -> Self {
        if self.try_stack.len() == 0 {
            self.emit0(Opcode::OpThrow)
        } else {
            self.throw_to_handler()
        }
    }

    // Constants

    #[verifier::opaque]
    pub open spec fn add_constant(self, obj: ObjectView) -> (Self, u16) {
        (
            CompilerView { constants: self.constants.push(obj), ..self },
            self.constants.len() as u16,
        )
    }

    /// A string constant; equal strings share one.
    #[verifier::opaque]
    pub open spec fn add_string(self, s: Seq<char>) -> (Self, u16) {
        if self.string_slots.dom().contains(s) {
            (self, self.string_slots[s] as u16)
        } else {
            let (t, idx) = self.add_constant(ObjectView::String(s));
            (
                CompilerView {
                    realm: self.realm.after_symbol(s),
                    string_slots: self.string_slots.insert(s, idx as usize),
                    ..t
                },
                idx,
            )
        }
    }

    /// An integer constant; equal integers share one.
    #[verifier::opaque]
    pub open spec fn add_int(self, v: i64) -> (Self, u16) {
        if self.int_slots.dom().contains(v as u64) {
            (self, self.int_slots[v as u64] as u16)
        } else {
            let (t, idx) = self.add_constant(ObjectView::Integer(v));
            (
                CompilerView { int_slots: self.int_slots.insert(v as u64, idx as usize), ..t },
                idx,
            )
        }
    }

    /// A floating-point constant; equal bit patterns share one.
    #[verifier::opaque]
    pub open spec fn add_float(self, bits: u64) -> (Self, u16) {
        if self.float_slots.dom().contains(bits) {
            (self, self.float_slots[bits] as u16)
        } else {
            let (t, idx) = self.add_constant(ObjectView::Float(bits));
            (
                CompilerView { float_slots: self.float_slots.insert(bits, idx as usize), ..t },
                idx,
            )
        }
    }

    /// Add a constant and push it.
    #[verifier::opaque]
    pub open spec fn push_object(self, obj: ObjectView) -> Self {
        let (t, idx) = self.add_constant(obj);
        t.emit1(Opcode::OpConstant, idx)
    }

    #[verifier::opaque]
    pub open spec fn push_int(self, v: i64) -> Self {
        let (t, idx) = self.add_int(v);
        t.emit1(Opcode::OpConstant, idx)
    }

    #[verifier::opaque]
    pub open spec fn push_float(self, bits: u64) -> Self {
        let (t, idx) = self.add_float(bits);
        t.emit1(Opcode::OpConstant, idx)
    }

    #[verifier::opaque]
    pub open spec fn push_string(self, s: Seq<char>) -> Self {
        let (t, idx) = self.add_string(s);
        t.emit1(Opcode::OpConstant, idx)
    }

    // Variables

    /// The global slot of a name; a name without one gets the next.
    #[verifier::opaque]
    pub open spec fn global_slot(self, name: Seq<char>) -> (Self, u16) {
        if self.globals.has(name) {
            (self, self.globals.map[name])
        } else if self.next_global >= GLOBALS_SIZE {
            (self.fail("global symbol table overflow"@), 0)
        } else {
            (
                CompilerView {
                    globals: self.globals.set(name, self.next_global as u16),
                    next_global: (self.next_global + 1) as u32,
                    ..self
                },
                self.next_global as u16,
            )
        }
    }

    /// The local slot of a name; a name without one gets the next.
    #[verifier::opaque]
    pub open spec fn local_slot(self, name: Seq<char>) -> (Self, u16) {
        if self.locals.has(name) {
            (self, self.locals.map[name])
        } else {
            (
                CompilerView {
                    locals: self.locals.set(name, self.next_local),
                    next_local: next16(self.next_local),
                    ..self
                },
                self.next_local,
            )
        }
    }

    /// The slot of a name that is declared in this scope.
    #[verifier::opaque]
    pub open spec fn binding_slot(self, name: Seq<char>) -> (Self, u16) {
        if self.is_function_scope {
            self.local_slot(name)
        } else {
            self.global_slot(name)
        }
    }

    /// The slot of a name that is assigned to: a local if there is one, or
    /// else a global.
    #[verifier::opaque]
    pub open spec fn name_slot(self, name: Seq<char>) -> (Self, Slot) {
        if self.locals.has(name) {
            (self, Slot::Local(self.locals.map[name]))
        } else {
            let (t, idx) = self.global_slot(name);
            (t, Slot::Global(idx))
        }
    }

    #[verifier::opaque]
    pub open spec fn load(self, slot: Slot) -> Self {
        match slot {
            Slot::Local(idx) => self.emit1(Opcode::OpGetLocal, idx),
            Slot::Global(idx) => self.emit1(Opcode::OpGetGlobal, idx),
        }
    }

    #[verifier::opaque]
    pub open spec fn store(self, slot: Slot) -> Self {
        match slot {
            Slot::Local(idx) => self.emit1(Opcode::OpSetLocal, idx),
            Slot::Global(idx) => self.emit1(Opcode::OpSetGlobal, idx),
        }
    }

    /// Store the top of the stack in a variable of this scope.
    #[verifier::opaque]
    pub open spec fn assign_top(self, name: Seq<char>) -> Self {
        let (t, idx) = self.binding_slot(name);
        if t.is_function_scope {
            t.emit1(Opcode::OpSetLocal, idx)
        } else {
            t.emit1(Opcode::OpSetGlobal, idx)
        }
    }

    /// Assign the top of the stack to a variable that may have been declared constant.
    #[verifier::opaque]
    pub open spec fn assign_target(self, name: Seq<char>) -> Self {
        if self.const_bindings.contains(name) {
            self.fail("Assignment to constant variable '"@ + name + "'"@)
        } else {
            self.assign_top(name)
        }
    }

    /// Push what a name stands for: a local, a global, a builtin, or inside a
    /// function a global that is yet to be defined.
    #[verifier::opaque]
    pub open spec fn push_name(self, name: Seq<char>) -> Self {
        if self.locals.has(name) {
            self.emit1(Opcode::OpGetLocal, self.locals.map[name])
        } else if self.globals.has(name) {
            self.emit1(Opcode::OpGetGlobal, self.globals.map[name])
        } else {
            match global_member(name) {
                Some(m) => {
                    let (realm, obj) = member_object(self.realm, m);
                    CompilerView { realm, ..self }.push_object(obj)
                },
                None => if self.is_function_scope {
                    let (t, idx) = self.global_slot(name);
                    t.emit1(Opcode::OpGetGlobal, idx)
                } else {
                    self.fail("undefined identifier "@ + name)
                },
            }
        }
    }

    /// Push a named property of the top of the stack.
    #[verifier::opaque]
    pub open spec fn get_property(self, prop: Seq<char>) -> Self {
        let (t, idx) = self.add_string(prop);
        t.after_cache_slot().emit(Opcode::OpGetProperty, seq![idx, t.next_cache_slot])
    }

    /// Push a named property of a variable.
    #[verifier::opaque]
    pub open spec fn push_property(self, name: Seq<char>, prop: Seq<char>) -> Self {
        if self.locals.has(name) {
            let (t, idx) = self.add_string(prop);
            t.after_cache_slot().emit(
                Opcode::OpGetLocalProperty,
                seq![self.locals.map[name], idx, t.next_cache_slot],
            )
        } else if self.globals.has(name) {
            let (t, idx) = self.add_string(prop);
            t.after_cache_slot().emit(
                Opcode::OpGetGlobalProperty,
                seq![self.globals.map[name], idx, t.next_cache_slot],
            )
        } else {
            self.push_name(name).get_property(prop)
        }
    }

    /// `let name = null;` for a hidden or loop variable.
    #[verifier::opaque]
    pub open spec fn declare_null(self, name: Seq<char>) -> Self {
        let (t, idx) = CompilerView { elided: None, ..self }.binding_slot(name);
        let t = t.emit0(Opcode::OpNull);
        if t.is_function_scope {
            let (u, global) = t.global_slot(name);
            u.emit1(Opcode::OpSetLocal, idx).emit1(Opcode::OpGetLocal, idx).emit1(
                Opcode::OpSetGlobal,
                global,
            )
        } else {
            t.emit1(Opcode::OpSetGlobal, idx)
        }
    }

    /// Store the top of the stack in the variable that a name means, and push
    /// it again.
    #[verifier::opaque]
    pub open spec fn set_name(self, name: Seq<char>) -> Self {
        let (t, slot) = self.name_slot(name);
        t.store(slot).load(slot)
    }

    /// `name += 1` or `name -= 1` as an expression.
    #[verifier::opaque]
    pub open spec fn step_name(self, name: Seq<char>, operator: Seq<char>) -> Self {
        if self.const_bindings.contains(name) {
            self.fail("Assignment to constant variable '"@ + name + "'"@)
        } else {
            match compound_opcode(operator) {
                Some(op) => {
                    let (t, slot) = self.name_slot(name);
                    t.load(slot).push_int(1).emit0(op).store(slot).load(slot)
                },
                None => self.fail("unsupported assignment operator "@ + operator),
            }
        }
    }

    /// `source[i]`, for a hidden variable.
    #[verifier::opaque]
    pub open spec fn push_element(self, source: Seq<char>, i: int) -> Self {
        self.push_name(source).push_int(i as i64).emit0(Opcode::OpIndex)
    }

    /// `source[i..]`, for a hidden variable.
    #[verifier::opaque]
    pub open spec fn push_rest(self, source: Seq<char>, i: int) -> Self {
        self.push_name(source).push_int(i as i64).emit0(Opcode::OpIteratorRest)
    }

    // Loops

    #[verifier::opaque]
    pub open spec fn open_loop(self, label: Option<Seq<char>>, continue_target: usize) -> Self {
        CompilerView {
            loop_stack: self.loop_stack.push(
                LoopView {
                    label,
                    continue_target,
                    break_positions: Seq::empty(),
                    continue_positions: Seq::empty(),
                },
            ),
            ..self
        }
    }

    /// Let the innermost loop's `continue` go to the next instruction.
    #[verifier::opaque]
    pub open spec fn continue_here(self) -> Self {
        if self.loop_stack.len() == 0 {
            self
        } else {
            let n = self.loop_stack.len() - 1;
            CompilerView {
                loop_stack: self.loop_stack.update(
                    n,
                    LoopView { continue_target: self.here(), ..self.loop_stack[n] },
                ),
                ..self
            }
        }
    }

    /// Leave the innermost loop, whose `break` goes to `end`.
    #[verifier::opaque]
    pub open spec fn close_loop(self, end: usize) -> Self {
        if self.loop_stack.len() == 0 {
            self
        } else {
            let ctx = self.loop_stack.last();
            CompilerView { loop_stack: self.loop_stack.drop_last(), ..self }.patch_all(
                ctx.break_positions,
                0,
                end,
            ).patch_all(ctx.continue_positions, 0, ctx.continue_target)
        }
    }

    /// Leave the innermost switch, whose `break` goes to `end`.
    #[verifier::opaque]
    pub open spec fn close_switch(self, end: usize) -> Self {
        if self.loop_stack.len() == 0 {
            self
        } else {
            let ctx = self.loop_stack.last();
            let t = CompilerView { loop_stack: without_switch(self.loop_stack), ..self }.patch_all(
                ctx.break_positions,
                0,
                end,
            );
            if self.loop_stack.len() == 1 && ctx.continue_positions.len() > 0 {
                t.fail("loop control outside loop"@)
            } else {
                t
            }
        }
    }

    /// A jump out of, or to the next turn of, a loop.
    #[verifier::opaque]
    pub open spec fn jump_from_loop(self, label: Option<Seq<char>>, is_break: bool) -> Self {
        let pos = self.here();
        let t = self.emit1(Opcode::OpJump, PLACEHOLDER);
        match loop_index(t.loop_stack, label, t.loop_stack.len() as int) {
            Some(n) => {
                let ctx = t.loop_stack[n];
                CompilerView {
                    loop_stack: t.loop_stack.update(
                        n,
                        if is_break {
                            LoopView { break_positions: ctx.break_positions.push(pos), ..ctx }
                        } else {
                            LoopView { continue_positions: ctx.continue_positions.push(pos), ..ctx }
                        },
                    ),
                    ..t
                }
            },
            None => match label {
                Some(l) => t.fail("unknown loop label '"@ + l + "'"@),
                None => t.fail("loop control outside loop"@),
            },
        }
    }

    /// Jump back to the start of a `while` loop. An increment of a global that
    /// was just emitted takes the jump into itself.
    #[verifier::opaque]
    pub open spec fn jump_back(self, start: usize) -> Self {
        if self.last_opcode == Some(Opcode::OpIncrementGlobal) {
            CompilerView {
                instructions: with_byte(
                    self.instructions,
                    self.last_position as int,
                    Opcode::OpIncrementGlobalAndJump as u8,
                ).push((start as u16 / 256) as u8).push((start as u16 % 256) as u8),
                last_opcode: Some(Opcode::OpIncrementGlobalAndJump),
                elided: None,
                ..self
            }
        } else {
            self.emit1(Opcode::OpJump, start as u16)
        }
    }

    // Unused results

    /// Keep the value of the last statement on the stack after all: take back
    /// its pop, or push again what was not pushed.
    #[verifier::opaque]
    pub open spec fn remove_last_pop(self) -> Self {
        if self.last_opcode == Some(Opcode::OpPop) {
            CompilerView {
                instructions: if self.last_position <= self.instructions.len() {
                    self.instructions.take(self.last_position as int)
                } else {
                    self.instructions
                },
                last_opcode: None,
                elided: None,
                ..self
            }
        } else {
            match self.elided {
                Some((op, operand)) => CompilerView { elided: None, ..self }.emit1(op, operand),
                None => self,
            }
        }
    }

    /// Whether the code ends in a store to a variable and a load of the same
    /// variable. For a global, both must have been emitted from
    /// `statement_start` on.
    #[verifier::opaque]
    pub open spec fn ends_in_store_and_load(self, statement_start: usize) -> bool {
        let get = self.last_position as int;
        let set = get - 3;
        let code = self.instructions;
        &&& get >= 3
        &&& get + 2 < code.len()
        &&& {
            ||| code[get] == Opcode::OpGetLocal as u8 && code[set] == Opcode::OpSetLocal as u8
            ||| code[get] == Opcode::OpGetGlobal as u8 && code[set] == Opcode::OpSetGlobal as u8
                && set >= statement_start
        }
        &&& code[set + 1] == code[get + 1]
        &&& code[set + 2] == code[get + 2]
    }

    /// Drop the load at the end of the code, remembering it.
    #[verifier::opaque]
    pub open spec fn without_last_load(self) -> Self {
        let get = self.last_position as int;
        let code = self.instructions;
        let operand = (code[get + 1] as int * 256 + code[get + 2] as int) as u16;
        let is_local = code[get] == Opcode::OpGetLocal as u8;
        CompilerView {
            instructions: code.take(get),
            last_position: (get - 3) as usize,
            last_opcode: Some(
                if is_local {
                    Opcode::OpSetLocal
                } else {
                    Opcode::OpSetGlobal
                },
            ),
            elided: Some(
                (
                    if is_local {
                        Opcode::OpGetLocal
                    } else {
                        Opcode::OpGetGlobal
                    },
                    operand,
                ),
            ),
            depth: moved_depth(self.depth, -1),
            ..self
        }
    }

    /// Drop the value that an expression statement left on the stack, in the
    /// cheapest way.
    #[verifier::opaque]
    pub open spec fn drop_result(self, is_name_assignment: bool, statement_start: usize) -> Self {
        if self.last_opcode == Some(Opcode::OpSetLocalProperty) {
            CompilerView {
                instructions: with_byte(
                    self.instructions,
                    self.last_position as int,
                    Opcode::OpSetLocalPropertyPop as u8,
                ),
                last_opcode: Some(Opcode::OpSetLocalPropertyPop),
                depth: moved_depth(self.depth, -1),
                ..self
            }
        } else if self.last_opcode == Some(Opcode::OpSetGlobalProperty) {
            CompilerView {
                instructions: with_byte(
                    self.instructions,
                    self.last_position as int,
                    Opcode::OpSetGlobalPropertyPop as u8,
                ),
                last_opcode: Some(Opcode::OpSetGlobalPropertyPop),
                depth: moved_depth(self.depth, -1),
                ..self
            }
        } else if is_name_assignment && (self.last_opcode == Some(Opcode::OpGetLocal)
            || self.last_opcode == Some(Opcode::OpGetGlobal)) && self.ends_in_store_and_load(
            statement_start,
        ) {
            self.without_last_load()
        } else {
            self.emit0(Opcode::OpPop)
        }
    }

    /// End a function's code.
    #[verifier::opaque]
    pub open spec fn finish_function(self) -> Self {
        let t = if self.last_opcode == Some(Opcode::OpPop) {
            self.remove_last_pop().emit0(Opcode::OpReturnValue)
        } else {
            self
        };
        let u = if t.last_opcode == Some(Opcode::OpReturnValue) || t.last_opcode == Some(
            Opcode::OpReturn,
        ) {
            t
        } else {
            t.emit0(Opcode::OpReturn)
        };
        u.emit0(Opcode::OpHalt)
    }

    /// The state of the enclosing scope after a function was compiled in it,
    /// whose own state is `inner`.
    #[verifier::opaque]
    pub open spec fn after_function(self, inner: Self) -> Self {
        CompilerView {
            err: if self.err is Some {
                self.err
            } else {
                inner.err
            },
            realm: inner.realm,
            next_global: if inner.next_global > self.next_global {
                inner.next_global
            } else {
                self.next_global
            },
            globals: self.globals.adopt(inner.globals, 0),
            ..self
        }
    }

    /// The function whose code this state holds.
    #[verifier::opaque]
    pub open spec fn function(
        self,
        num_parameters: usize,
        rest_parameter_index: Option<usize>,
        takes_this: bool,
        is_async: bool,
        is_generator: bool,
    ) -> FunctionView {
        FunctionView {
            instructions: self.instructions,
            constants: self.constants,
            num_locals: self.next_local as usize,
            num_parameters,
            rest_parameter_index,
            takes_this,
            is_async,
            is_generator,
            num_cache_slots: self.next_cache_slot,
            max_stack_depth: (if self.max_depth > 0 {
                self.max_depth
            } else {
                0
            }) as u16,
            register_count: 0,
            inline_cache: Seq::new(self.next_cache_slot as nat, |i: int| (0u32, 0u32)),
            closure_captures: Seq::empty(),
            captured_values: Seq::empty(),
        }
    }
}

// Peephole patterns. Each returns the state, in which constants may have been
// added even where the pattern turns out not to apply, and the operands.

/// A numeric literal as a constant, negated or not.
#[verifier::opaque]
pub open spec fn number_constant(s: CompilerView, e: Expression, negate: bool) -> (
    CompilerView,
    Option<u16>,
) {
    match e {
        Expression::Integer(v) => {
            let (t, idx) = s.add_int(
                if negate {
                    negated_int(v)
                } else {
                    v
                },
            );
            (t, Some(idx))
        },
        Expression::Float(bits) => {
            let (t, idx) = s.add_float(
                if negate {
                    negated_float(bits)
                } else {
                    bits
                },
            );
            (t, Some(idx))
        },
        _ => (s, None),
    }
}

/// The negative of an integer; the least integer is its own.
pub open spec fn negated_int(v: i64) -> i64 {
    if v == i64::MIN {
        v
    } else {
        (-v) as i64
    }
}

/// A double with its sign turned.
pub open spec fn negated_float(bits: u64) -> u64 {
    if bits < 0x8000_0000_0000_0000 {
        (bits + 0x8000_0000_0000_0000) as u64
    } else {
        (bits - 0x8000_0000_0000_0000) as u64
    }
}

/// The variable slot of a name that is in scope.
pub open spec fn known_slot(s: CompilerView, name: Seq<char>) -> Option<Slot> {
    if s.locals.has(name) {
        Some(Slot::Local(s.locals.map[name]))
    } else if s.globals.has(name) {
        Some(Slot::Global(s.globals.map[name]))
    } else {
        None
    }
}

/// The slot of a name that means a global variable here.
pub open spec fn known_global(s: CompilerView, name: Seq<char>) -> Option<u16> {
    if s.locals.has(name) {
        None
    } else {
        s.globals.get(name)
    }
}

/// `name < number` or `name <= number`: the slot, the constant and the opcode
/// that tests and jumps.
#[verifier::opaque]
pub open spec fn fuse_compare(s: CompilerView, cond: Expression) -> (
    CompilerView,
    Option<(u16, u16, Opcode)>,
) {
    match cond {
        Expression::Infix { left, operator, right } => match *left {
            Expression::Identifier(name) => if operator@ == "<"@ || operator@ == "<="@ {
                let (t, number) = number_constant(s, *right, false);
                match (number, known_slot(t, name@)) {
                    (Some(idx), Some(Slot::Local(slot))) => (
                        t,
                        Some(
                            (
                                slot,
                                idx,
                                if operator@ == "<"@ {
                                    Opcode::OpTestLocalLtConstJump
                                } else {
                                    Opcode::OpTestLocalLeConstJump
                                },
                            ),
                        ),
                    ),
                    (Some(idx), Some(Slot::Global(slot))) => (
                        t,
                        Some(
                            (
                                slot,
                                idx,
                                if operator@ == "<"@ {
                                    Opcode::OpTestGlobalLtConstJump
                                } else {
                                    Opcode::OpTestGlobalLeConstJump
                                },
                            ),
                        ),
                    ),
                    _ => (t, None),
                }
            } else {
                (s, None)
            },
            _ => (s, None),
        },
        _ => (s, None),
    }
}

/// `(name % number) === number` on a global: its slot and the two constants.
#[verifier::opaque]
pub open spec fn fuse_mod_eq(s: CompilerView, cond: Expression) -> (
    CompilerView,
    Option<(u16, u16, u16)>,
) {
    match cond {
        Expression::Infix { left, operator, right } => match *left {
            Expression::Infix { left: dividend, operator: inner, right: divisor } =>
            match *dividend {
                Expression::Identifier(name) => if operator@ == "==="@ && inner@ == "%"@ {
                    match known_global(s, name@) {
                        None => (s, None),
                        Some(slot) => match number_constant(s, *divisor, false) {
                            (t, None) => (t, None),
                            (t, Some(m)) => match number_constant(t, *right, false) {
                                (u, None) => (u, None),
                                (u, Some(c)) => (u, Some((slot, m, c))),
                            },
                        },
                    }
                } else {
                    (s, None)
                },
                _ => (s, None),
            },
            _ => (s, None),
        },
        _ => (s, None),
    }
}

/// The number that `name += number` or `name = name + number` adds.
pub open spec fn increment_operand(e: Expression) -> Option<(Seq<char>, Expression)> {
    match e {
        Expression::Assign { left, operator, right } => match *left {
            Expression::Identifier(name) => if operator@ == "+="@ {
                Some((name@, *right))
            } else if operator@ == "="@ {
                match *right {
                    Expression::Infix { left: base, operator: plus, right: amount } =>
                    match *base {
                        Expression::Identifier(other) => if plus@ == "+"@ && other@ == name@ {
                            Some((name@, *amount))
                        } else {
                            None
                        },
                        _ => None,
                    },
                    _ => None,
                }
            } else {
                None
            },
            _ => None,
        },
        _ => None,
    }
}

/// An increment of a variable by a number: its slot, the constant, the opcode. A
/// constant is not incremented.
#[verifier::opaque]
pub open spec fn fuse_increment(s: CompilerView, e: Expression) -> (
    CompilerView,
    Option<(u16, u16, Opcode)>,
) {
    match increment_operand(e) {
        None => (s, None),
        Some((name, amount)) => if s.const_bindings.contains(name) {
            (s, None)
        } else {
            match number_constant(s, amount, false) {
                (t, None) => (t, None),
                (t, Some(idx)) => match known_slot(t, name) {
                    Some(Slot::Local(slot)) => (t, Some((slot, idx, Opcode::OpIncrementLocal))),
                    Some(Slot::Global(slot)) => (t, Some((slot, idx, Opcode::OpIncrementGlobal))),
                    None => (t, None),
                },
            }
        },
    }
}

/// `target += source` or `target = target + source` on two globals, of which the target
/// is no constant.
#[verifier::opaque]
pub open spec fn fuse_accumulate(s: CompilerView, e: Expression) -> Option<(u16, u16)> {
    match increment_operand(e) {
        Some((name, Expression::Identifier(source))) => if s.const_bindings.contains(name) {
            None
        } else {
            match (known_global(s, name), known_global(s, source@)) {
                (Some(t), Some(u)) => Some((t, u)),
                _ => None,
            }
        },
        _ => None,
    }
}

/// The variable and property of `name.prop`.
pub open spec fn name_and_property(e: Expression) -> Option<(Seq<char>, Seq<char>)> {
    match e {
        Expression::Index { left, index } => match (*left, *index) {
            (Expression::Identifier(name), Expression::String(prop)) => Some((name@, prop@)),
            _ => None,
        },
        _ => None,
    }
}

/// The number that `obj.prop += number`, `obj.prop -= number`,
/// `obj.prop = obj.prop + number` or `obj.prop = obj.prop - number` adds, and
/// whether it is to be negated.
pub open spec fn property_increment(e: Expression) -> Option<
    (Seq<char>, Seq<char>, Expression, bool),
> {
    match e {
        Expression::Assign { left, operator, right } => match name_and_property(*left) {
            None => None,
            Some((name, prop)) => if operator@ == "+="@ {
                Some((name, prop, *right, false))
            } else if operator@ == "-="@ {
                Some((name, prop, *right, true))
            } else if operator@ == "="@ {
                match *right {
                    Expression::Infix { left: base, operator: sign, right: amount } => if (sign@
                        == "+"@ || sign@ == "-"@) && name_and_property(*base) == Some(
                        (name, prop),
                    ) {
                        Some((name, prop, *amount, sign@ == "-"@))
                    } else {
                        None
                    },
                    _ => None,
                }
            } else {
                None
            },
        },
        _ => None,
    }
}

/// An increment of a property of a global: its slot, the property, the amount
/// and the cache slot.
#[verifier::opaque]
pub open spec fn fuse_property_increment(s: CompilerView, e: Expression) -> (
    CompilerView,
    Option<(u16, u16, u16, u16)>,
) {
    match property_increment(e) {
        None => (s, None),
        Some((name, prop, amount, negate)) => match known_global(s, name) {
            None => (s, None),
            Some(slot) => match number_constant(s, amount, negate) {
                (t, None) => (t, None),
                (t, Some(val)) => {
                    let (u, idx) = t.add_string(prop);
                    (u.after_cache_slot(), Some((slot, idx, val, u.next_cache_slot)))
                },
            },
        },
    }
}

/// The parts of `obj.dst = obj.a + obj.b`: the object, and the three
/// properties in the order a, b, dst.
pub open spec fn property_sum(e: Expression) -> Option<
    (Seq<char>, Seq<char>, Seq<char>, Seq<char>),
> {
    match e {
        Expression::Assign { left, operator, right } => match (name_and_property(*left), *right) {
            (
                Some((name, dst)),
                Expression::Infix { left: a, operator: plus, right: b },
            ) => match (name_and_property(*a), name_and_property(*b)) {
                (Some((name1, first)), Some((name2, second))) => if operator@ == "="@ && plus@
                    == "+"@ && name1 == name && name2 == name {
                    Some((name, first, second, dst))
                } else {
                    None
                },
                _ => None,
            },
            _ => None,
        },
        _ => None,
    }
}

/// `obj.dst = obj.a + obj.b` on a global: its slot, then each property with
/// its cache slot.
#[verifier::opaque]
pub open spec fn fuse_property_sum(s: CompilerView, e: Expression) -> (
    CompilerView,
    Option<Seq<u16>>,
) {
    match property_sum(e) {
        None => (s, None),
        Some((name, first, second, dst)) => match known_global(s, name) {
            None => (s, None),
            Some(slot) => {
                let (t1, i1) = s.add_string(first);
                let u1 = t1.after_cache_slot();
                let (t2, i2) = u1.add_string(second);
                let u2 = t2.after_cache_slot();
                let (t3, i3) = u2.add_string(dst);
                (
                    t3.after_cache_slot(),
                    Some(
                        seq![
                            slot,
                            i1,
                            t1.next_cache_slot,
                            i2,
                            t2.next_cache_slot,
                            i3,
                            t3.next_cache_slot,
                        ],
                    ),
                )
            },
        },
    }
}

/// Whether an expression assigns to a variable.
#[verifier::opaque]
pub open spec fn is_name_assignment(e: Expression) -> bool {
    e matches Expression::Assign { left, .. } && *left is Identifier
}

/// Whether any item is a spread.
#[verifier::opaque]
pub open spec fn has_spread(items: Seq<Expression>) -> bool {
    exists|i: int| 0 <= i < items.len() && #[trigger] items[i] is Spread
}

/// Whether a declaration is a `const`.
pub open spec fn is_const(kind: VariableKind) -> bool {
    kind == VariableKind::Const
}

} // verus!
