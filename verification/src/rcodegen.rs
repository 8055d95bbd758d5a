//! The state of the register compiler, and what each of its elementary steps
//! does to it.
use vstd::prelude::*;

use crate::ast::{Expression, Statement, VariableKind};
use crate::builtins::{global_member, member_object};
use crate::codegen::{
    increment_operand, loop_index, next16, next64, patched, temp_name, with_names, with_parameters,
    without_switch, LoopView, Slot, GLOBALS_SIZE, PLACEHOLDER,
};
use crate::names::Names;
use crate::object::{ClassView, FunctionView, ObjectView};
use crate::rcode::{rencode, ROp};
use crate::realm::RealmView;

verus! {

/// A `try` or `catch` block that is being compiled: the variable that holds the
/// exception, the jumps to the handler and, where there is a `finally` block,
/// the variables that hold the value and the flag of a return that waits for
/// it, and the jumps of such returns.
#[verifier::ext_equal]
pub struct RTryView {
    pub exception_temp: Seq<char>,
    pub throw_jumps: Seq<usize>,
    pub deferred_return: Option<(Seq<char>, Seq<char>)>,
    pub return_jumps: Seq<usize>,
}

/// The state of a register compiler. Once `err` is set the program is rejected
/// with that message, and nothing else of the state counts.
///
/// Named locals are registers; temporaries are allocated above them.
#[verifier::ext_equal]
pub struct RView {
    pub err: Option<Seq<char>>,
    pub realm: RealmView,
    pub instructions: Seq<u8>,
    pub constants: Seq<ObjectView>,
    pub globals: Names<u16>,
    pub next_global: u32,
    pub locals: Names<u16>,
    pub class_defs: Names<ClassView>,
    pub num_locals: u16,
    pub next_temp: u16,
    pub max_reg: u16,
    pub is_function_scope: bool,
    pub loop_stack: Seq<LoopView>,
    pub temp_counter: u64,
    pub try_stack: Seq<RTryView>,
    pub string_slots: Map<Seq<char>, usize>,
    pub int_slots: Map<u64, usize>,
    pub float_slots: Map<u64, usize>,
    pub next_cache_slot: u16,
    /// The names that get a global slot as well; all of them when `None`.
    pub captured: Option<Set<Seq<char>>>,
    pub const_bindings: Set<Seq<char>>,
    /// Global slots that were made for parameters of this function.
    pub shadow_slots: Set<u16>,
}

/// The register `i` places after `base`; register numbers wrap around.
pub open spec fn nth_reg(base: u16, i: usize) -> u16 {
    let sum = base as int + (i as u16) as int;
    if sum > 0xffff {
        (sum - 0x1_0000) as u16
    } else {
        sum as u16
    }
}

/// Where in a jump instruction its target stands.
pub open spec fn target_offset(byte: u8) -> Option<int> {
    if byte == ROp::Jump as u8 {
        Some(1)
    } else if byte == ROp::JumpIfNot as u8 || byte == ROp::JumpIfTruthy as u8 {
        Some(3)
    } else if byte == ROp::TestLtConstJump as u8 || byte == ROp::TestLeConstJump as u8 || byte
        == ROp::IncrementRegAndJump as u8 {
        Some(5)
    } else if byte == ROp::ModRegConstStrictEqConstJump as u8 {
        Some(7)
    } else {
        None
    }
}

/// The opcode of a binary operator that evaluates both of its operands.
#[verifier::opaque]
pub open spec fn infix_rop(operator: Seq<char>) -> Option<ROp> {
    if operator == "+"@ {
        Some(ROp::Add)
    } else if operator == "-"@ {
        Some(ROp::Sub)
    } else if operator == "*"@ {
        Some(ROp::Mul)
    } else if operator == "/"@ {
        Some(ROp::Div)
    } else if operator == "%"@ {
        Some(ROp::Mod)
    } else if operator == "**"@ {
        Some(ROp::Pow)
    } else if operator == "=="@ {
        Some(ROp::Equal)
    } else if operator == "!="@ {
        Some(ROp::NotEqual)
    } else if operator == "==="@ {
        Some(ROp::StrictEqual)
    } else if operator == "!=="@ {
        Some(ROp::StrictNotEqual)
    } else if operator == ">"@ {
        Some(ROp::GreaterThan)
    } else if operator == "<"@ {
        Some(ROp::LessThan)
    } else if operator == ">="@ {
        Some(ROp::GreaterOrEqual)
    } else if operator == "<="@ {
        Some(ROp::LessOrEqual)
    } else if operator == "&"@ {
        Some(ROp::BitwiseAnd)
    } else if operator == "|"@ {
        Some(ROp::BitwiseOr)
    } else if operator == "^"@ {
        Some(ROp::BitwiseXor)
    } else if operator == "<<"@ {
        Some(ROp::LeftShift)
    } else if operator == ">>"@ {
        Some(ROp::RightShift)
    } else if operator == ">>>"@ {
        Some(ROp::UnsignedRightShift)
    } else if operator == "in"@ {
        Some(ROp::In)
    } else if operator == "instanceof"@ {
        Some(ROp::Instanceof)
    } else {
        None
    }
}

/// The opcode that a compound assignment applies before it stores.
#[verifier::opaque]
pub open spec fn compound_rop(operator: Seq<char>) -> Option<ROp> {
    if operator == "+="@ {
        Some(ROp::Add)
    } else if operator == "-="@ {
        Some(ROp::Sub)
    } else if operator == "*="@ {
        Some(ROp::Mul)
    } else if operator == "/="@ {
        Some(ROp::Div)
    } else if operator == "%="@ {
        Some(ROp::Mod)
    } else if operator == "**="@ {
        Some(ROp::Pow)
    } else if operator == "&="@ {
        Some(ROp::BitwiseAnd)
    } else if operator == "|="@ {
        Some(ROp::BitwiseOr)
    } else if operator == "^="@ {
        Some(ROp::BitwiseXor)
    } else if operator == "<<="@ {
        Some(ROp::LeftShift)
    } else if operator == ">>="@ {
        Some(ROp::RightShift)
    } else if operator == ">>>="@ {
        Some(ROp::UnsignedRightShift)
    } else {
        None
    }
}

/// A table of globals without the parameters from position `i` on that nested
/// functions refer to: those get slots of their own.
#[verifier::opaque]
pub open spec fn without_captured(
    globals: Names<u16>,
    parameters: Seq<Seq<char>>,
    captured: Set<Seq<char>>,
    i: int,
) -> Names<u16>
    decreases parameters.len() - i,
{
    if i < 0 || i >= parameters.len() {
        globals
    } else {
        without_captured(
            if captured.contains(parameters[i]) {
                globals.unset(parameters[i])
            } else {
                globals
            },
            parameters,
            captured,
            i + 1,
        )
    }
}

/// The slots among the first `n` of a table that were made for parameters of
/// the enclosing function.
#[verifier::opaque]
pub open spec fn captured_slots(globals: Names<u16>, shadow_slots: Set<u16>, n: int) -> Seq<u16>
    decreases n,
{
    if n <= 0 {
        Seq::empty()
    } else {
        let before = captured_slots(globals, shadow_slots, n - 1);
        let slot = globals.map[globals.order[n - 1]];
        if shadow_slots.contains(slot) {
            before.push(slot)
        } else {
            before
        }
    }
}

/// The innermost of the first `n` `try` and `catch` blocks that a `finally` block
/// follows.
pub open spec fn deferring(stack: Seq<RTryView>, n: int) -> Option<int>
    decreases n,
{
    if n <= 0 {
        None
    } else if stack[n - 1].deferred_return is Some {
        Some(n - 1)
    } else {
        deferring(stack, n - 1)
    }
}

/// One more than the highest of the first `n` slots of a table.
#[verifier::opaque]
pub open spec fn next_free_slot(globals: Names<u16>, n: int) -> u32
    decreases n,
{
    if n <= 0 {
        0
    } else {
        let before = next_free_slot(globals, n - 1);
        let slot = globals.map[globals.order[n - 1]];
        if slot as int + 1 > before {
            (slot + 1) as u32
        } else {
            before
        }
    }
}

/// The slots of a table lie below the next free one.
pub(crate) proof fn lemma_slots_lie_below(globals: Names<u16>, n: int, i: int)
    requires
        0 <= i < n,
    ensures
        globals.map[globals.order[i]] < next_free_slot(globals, n),
    decreases n,
{
    reveal(next_free_slot);
    if i < n - 1 {
        lemma_slots_lie_below(globals, n - 1, i);
    }
}

impl RView {
    /// The state in which a program's compilation starts.
    pub open spec fn start(realm: RealmView) -> Self {
        RView {
            err: None,
            realm,
            instructions: Seq::empty(),
            constants: Seq::empty(),
            globals: Names::empty(),
            next_global: 0,
            locals: Names::empty(),
            class_defs: Names::empty(),
            num_locals: 0,
            next_temp: 0,
            max_reg: 0,
            is_function_scope: false,
            loop_stack: Seq::empty(),
            temp_counter: 0,
            try_stack: Seq::empty(),
            string_slots: Map::empty(),
            int_slots: Map::empty(),
            float_slots: Map::empty(),
            next_cache_slot: 0,
            captured: None,
            const_bindings: Set::empty(),
            shadow_slots: Set::empty(),
        }
    }

    /// The state in which a function's compilation starts, inside `self`.
    #[verifier::opaque]
    pub open spec fn function_scope(
        self,
        parameters: Seq<Seq<char>>,
        captured: Set<Seq<char>>,
    ) -> Self {
        let count = parameters.len() as u16;
        RView {
            globals: without_captured(self.globals, parameters, captured, 0),
            next_global: self.next_global,
            locals: with_parameters(Names::empty(), parameters, 0),
            num_locals: count,
            next_temp: count,
            max_reg: if count > 0 {
                (count - 1) as u16
            } else {
                0
            },
            is_function_scope: true,
            captured: Some(captured),
            ..Self::start(self.realm)
        }
    }

    /// The state after the program was found to be wrong.
    #[verifier::opaque]
    pub open spec fn fail(self, message: Seq<char>) -> Self {
        if self.err is Some {
            self
        } else {
            RView { err: Some(message), ..self }
        }
    }

    /// The position of the next instruction.
    #[verifier::opaque]
    pub open spec fn here(self) -> usize {
        self.instructions.len() as usize
    }

    #[verifier::opaque]
    pub open spec fn emit(self, op: ROp, operands: Seq<u16>) -> Self {
        RView { instructions: self.instructions + rencode(op, operands), ..self }
    }

    /// Set the target of the jump at `pos`. Nothing is done where no jump
    /// stands there.
    #[verifier::opaque]
    pub open spec fn patch(self, pos: usize, target: usize) -> Self {
        if pos >= self.instructions.len() {
            self
        } else {
            match target_offset(self.instructions[pos as int]) {
                Some(offset) => RView {
                    instructions: patched(self.instructions, pos + offset, target as u16),
                    ..self
                },
                None => self,
            }
        }
    }

    /// Set the target of each of the jumps from position `i` of a list on.
    #[verifier::opaque]
    pub open spec fn patch_all(self, positions: Seq<usize>, i: int, target: usize) -> Self
        decreases positions.len() - i,
    {
        if i < 0 || i >= positions.len() {
            self
        } else {
            self.patch(positions[i], target).patch_all(positions, i + 1, target)
        }
    }

    /// Take a name for a hidden variable.
    #[verifier::opaque]
    pub open spec fn after_name(self) -> Self {
        RView { temp_counter: next64(self.temp_counter), ..self }
    }

    #[verifier::opaque]
    pub open spec fn hidden(self, prefix: Seq<char>) -> Seq<char> {
        temp_name(prefix, self.temp_counter)
    }

    #[verifier::opaque]
    pub open spec fn after_cache_slot(self) -> Self {
        RView { next_cache_slot: next16(self.next_cache_slot), ..self }
    }

    // Registers

    /// Take the next temporary register.
    #[verifier::opaque]
    pub open spec fn take_temp(self) -> Self {
        RView {
            next_temp: next16(self.next_temp),
            max_reg: if self.next_temp > self.max_reg {
                self.next_temp
            } else {
                self.max_reg
            },
            ..self
        }
    }

    /// Let `r` be the next temporary register.
    #[verifier::opaque]
    pub open spec fn set_temps(self, r: u16) -> Self {
        RView { next_temp: r, ..self }
    }

    /// Free all temporary registers.
    #[verifier::opaque]
    pub open spec fn free_temps(self) -> Self {
        RView { next_temp: self.num_locals, ..self }
    }

    /// Copy a register, unless it is the same one.
    #[verifier::opaque]
    pub open spec fn copy_reg(self, dst: u16, src: u16) -> Self {
        if dst == src {
            self
        } else {
            self.emit(ROp::Move, seq![dst, src])
        }
    }

    /// Whether a register is that of a named local.
    #[verifier::opaque]
    pub open spec fn is_local_reg(self, reg: u16) -> bool {
        exists|i: int|
            0 <= i < self.locals.order.len() && self.locals.map[#[trigger] self.locals.order[i]]
                == reg
    }

    // Constants

    #[verifier::opaque]
    pub open spec fn add_constant(self, obj: ObjectView) -> (Self, u16) {
        (RView { constants: self.constants.push(obj), ..self }, self.constants.len() as u16)
    }

    /// A string constant; equal strings share one.
    #[verifier::opaque]
    pub open spec fn add_string(self, s: Seq<char>) -> (Self, u16) {
        if self.string_slots.dom().contains(s) {
            (self, self.string_slots[s] as u16)
        } else {
            let (t, idx) = self.add_constant(ObjectView::String(s));
            (
                RView {
                    realm: self.realm.after_symbol(s),
                    string_slots: self.string_slots.insert(s, idx as usize),
                    ..t
                },
                idx,
            )
        }
    }

    /// An integer constant; equal integers share one.
    #[verifier::opaque]
    pub open spec fn add_int(self, v: i64) -> (Self, u16) {
        if self.int_slots.dom().contains(v as u64) {
            (self, self.int_slots[v as u64] as u16)
        } else {
            let (t, idx) = self.add_constant(ObjectView::Integer(v));
            (RView { int_slots: self.int_slots.insert(v as u64, idx as usize), ..t }, idx)
        }
    }

    /// A floating-point constant; equal bit patterns share one.
    #[verifier::opaque]
    pub open spec fn add_float(self, bits: u64) -> (Self, u16) {
        if self.float_slots.dom().contains(bits) {
            (self, self.float_slots[bits] as u16)
        } else {
            let (t, idx) = self.add_constant(ObjectView::Float(bits));
            (RView { float_slots: self.float_slots.insert(bits, idx as usize), ..t }, idx)
        }
    }

    /// Load a constant that is there already.
    #[verifier::opaque]
    pub open spec fn load_const(self, dst: u16, idx: u16) -> Self {
        self.emit(ROp::LoadConst, seq![dst, idx])
    }

    #[verifier::opaque]
    pub open spec fn load_object(self, dst: u16, obj: ObjectView) -> Self {
        let (t, idx) = self.add_constant(obj);
        t.load_const(dst, idx)
    }

    #[verifier::opaque]
    pub open spec fn load_int(self, dst: u16, v: i64) -> Self {
        let (t, idx) = self.add_int(v);
        t.load_const(dst, idx)
    }

    #[verifier::opaque]
    pub open spec fn load_float(self, dst: u16, bits: u64) -> Self {
        let (t, idx) = self.add_float(bits);
        t.load_const(dst, idx)
    }

    #[verifier::opaque]
    pub open spec fn load_string(self, dst: u16, s: Seq<char>) -> Self {
        let (t, idx) = self.add_string(s);
        t.load_const(dst, idx)
    }

    /// Load a function, taking along the values of the slots it captures.
    #[verifier::opaque]
    pub open spec fn load_function(self, dst: u16, f: FunctionView) -> Self {
        let (t, idx) = self.add_constant(ObjectView::Function(f));
        if f.closure_captures.len() == 0 {
            t.load_const(dst, idx)
        } else {
            t.emit(
                ROp::MakeClosure,
                seq![dst, idx, f.closure_captures.len() as u16] + f.closure_captures,
            )
        }
    }

    // Variables

    /// The global slot of a name; a name without one gets the next.
    #[verifier::opaque]
    pub open spec fn global_slot(self, name: Seq<char>) -> (Self, u16) {
        if self.globals.has(name) {
            (self, self.globals.map[name])
        } else if self.next_global >= GLOBALS_SIZE {
            (self.fail("global symbol table overflow"@), 0)
        } else {
            (
                RView {
                    globals: self.globals.set(name, self.next_global as u16),
                    next_global: (self.next_global + 1) as u32,
                    ..self
                },
                self.next_global as u16,
            )
        }
    }

    /// The register of a local; a name without one gets the next above the
    /// locals and the temporary registers that are in use.
    #[verifier::opaque]
    pub open spec fn local_reg(self, name: Seq<char>) -> (Self, u16) {
        if self.locals.has(name) {
            (self, self.locals.map[name])
        } else {
            let r = if self.next_temp > self.num_locals {
                self.next_temp
            } else {
                self.num_locals
            };
            let count = next16(r);
            (
                RView {
                    locals: self.locals.set(name, r),
                    num_locals: count,
                    next_temp: count,
                    max_reg: if r > self.max_reg {
                        r
                    } else {
                        self.max_reg
                    },
                    ..self
                },
                r,
            )
        }
    }

    /// Where a name that is declared in this scope lives.
    #[verifier::opaque]
    pub open spec fn binding_slot(self, name: Seq<char>) -> (Self, Slot) {
        if self.is_function_scope {
            let (t, r) = self.local_reg(name);
            (t, Slot::Local(r))
        } else {
            let (t, g) = self.global_slot(name);
            (t, Slot::Global(g))
        }
    }

    /// Whether nested functions may refer to a name.
    #[verifier::opaque]
    pub open spec fn needs_global(self, name: Seq<char>) -> bool {
        match self.captured {
            Some(set) => set.contains(name),
            None => true,
        }
    }

    /// Keep the global slot of a local current, if it has one.
    #[verifier::opaque]
    pub open spec fn mirror(self, name: Seq<char>, reg: u16) -> Self {
        if self.globals.has(name) {
            self.emit(ROp::SetGlobal, seq![self.globals.map[name], reg])
        } else {
            self
        }
    }

    /// Give a local that nested functions may refer to a global slot, and keep
    /// it current.
    #[verifier::opaque]
    pub open spec fn mirror_captured(self, name: Seq<char>, reg: u16) -> Self {
        if self.needs_global(name) {
            let (t, g) = self.global_slot(name);
            t.emit(ROp::SetGlobal, seq![g, reg])
        } else {
            self
        }
    }

    /// Store a register in the global of that name.
    #[verifier::opaque]
    pub open spec fn store_global(self, name: Seq<char>, src: u16) -> Self {
        let (t, g) = self.global_slot(name);
        t.emit(ROp::SetGlobal, seq![g, src])
    }

    /// Store a register in a name that is declared here.
    #[verifier::opaque]
    pub open spec fn store_binding(self, name: Seq<char>, src: u16) -> Self {
        if self.is_function_scope {
            let (t, r) = self.local_reg(name);
            t.copy_reg(r, src).mirror_captured(name, r)
        } else {
            self.store_global(name, src)
        }
    }

    /// Store a register in a hidden or loop variable or a destructured name.
    #[verifier::opaque]
    pub open spec fn store_name(self, name: Seq<char>, src: u16) -> Self {
        if self.is_function_scope {
            let (t, r) = self.local_reg(name);
            t.copy_reg(r, src).mirror(name, r)
        } else {
            self.store_global(name, src)
        }
    }

    /// Store a register in a variable that may have been declared constant.
    #[verifier::opaque]
    pub open spec fn store_target(self, name: Seq<char>, src: u16) -> Self {
        if self.const_bindings.contains(name) {
            self.fail("Assignment to constant variable '"@ + name + "'"@)
        } else {
            self.store_name(name, src)
        }
    }

    /// Load what a name stands for: a local, a global, a builtin, or inside a
    /// function a global that is yet to be defined.
    #[verifier::opaque]
    pub open spec fn load_name(self, name: Seq<char>, dst: u16) -> Self {
        if self.locals.has(name) {
            self.copy_reg(dst, self.locals.map[name])
        } else if self.globals.has(name) {
            self.emit(ROp::GetGlobal, seq![dst, self.globals.map[name]])
        } else {
            match global_member(name) {
                Some(m) => {
                    let (realm, obj) = member_object(self.realm, m);
                    RView { realm, ..self }.load_object(dst, obj)
                },
                None => if self.is_function_scope {
                    let (t, g) = self.global_slot(name);
                    t.emit(ROp::GetGlobal, seq![dst, g])
                } else {
                    self.fail("undefined identifier "@ + name)
                },
            }
        }
    }

    /// Load what a name stands for into a new register.
    #[verifier::opaque]
    pub open spec fn load_name_new(self, name: Seq<char>) -> Self {
        self.take_temp().load_name(name, self.next_temp)
    }

    /// Read a named property of an object in a register.
    #[verifier::opaque]
    pub open spec fn get_prop(self, dst: u16, obj: u16, prop: Seq<char>) -> Self {
        let (t, idx) = self.add_string(prop);
        t.after_cache_slot().emit(ROp::GetProp, seq![dst, obj, idx, t.next_cache_slot])
    }

    /// Read a named property of an object in a global.
    #[verifier::opaque]
    pub open spec fn get_global_prop(self, dst: u16, global: u16, prop: Seq<char>) -> Self {
        let (t, idx) = self.add_string(prop);
        t.after_cache_slot().emit(ROp::GetGlobalProp, seq![dst, global, idx, t.next_cache_slot])
    }

    /// Read a named property of what a name stands for.
    #[verifier::opaque]
    pub open spec fn get_name_prop(self, dst: u16, name: Seq<char>, prop: Seq<char>) -> Self {
        if self.locals.has(name) {
            self.get_prop(dst, self.locals.map[name], prop)
        } else if self.globals.has(name) {
            self.get_global_prop(dst, self.globals.map[name], prop)
        } else {
            self.load_name_new(name).get_prop(dst, self.next_temp, prop)
        }
    }

    /// Read the globals of the locals from position `i` on back into their
    /// registers.
    #[verifier::opaque]
    pub open spec fn reload_from(self, i: int) -> Self
        decreases self.locals.order.len() - i,
    {
        if i < 0 || i >= self.locals.order.len() {
            self
        } else {
            let name = self.locals.order[i];
            if self.globals.has(name) {
                let code = self.instructions + rencode(
                    ROp::GetGlobal,
                    seq![self.locals.map[name], self.globals.map[name]],
                );
                RView { instructions: code, ..self }.reload_from(i + 1)
            } else {
                self.reload_from(i + 1)
            }
        }
    }

    /// After a call: read the locals that have a global back, then move the
    /// result to where it belongs.
    #[verifier::opaque]
    pub open spec fn finish_call(self, call_dst: u16, dst: u16) -> Self {
        self.reload_from(0).copy_reg(dst, call_dst)
    }

    /// The register that a call's result goes to first: not that of a local,
    /// which reading the globals back could overwrite.
    #[verifier::opaque]
    pub open spec fn call_dst(self, dst: u16) -> (Self, u16) {
        if self.is_local_reg(dst) {
            (self.take_temp(), self.next_temp)
        } else {
            (self, dst)
        }
    }

    // Declarations

    #[verifier::opaque]
    pub open spec fn declare_const(self, name: Seq<char>) -> Self {
        RView { const_bindings: self.const_bindings.insert(name), ..self }
    }

    #[verifier::opaque]
    pub open spec fn declare_consts(self, names: Seq<Seq<char>>) -> Self {
        RView { const_bindings: with_names(self.const_bindings, names, 0), ..self }
    }

    /// Give each name of a list from position `i` on a register, inside a
    /// function.
    #[verifier::opaque]
    pub open spec fn declare_locals(self, names: Seq<Seq<char>>, i: int) -> Self
        decreases names.len() - i,
    {
        if i < 0 || i >= names.len() {
            self
        } else {
            self.local_reg(names[i]).0.declare_locals(names, i + 1)
        }
    }

    /// Give each name of a list from position `i` on a slot.
    #[verifier::opaque]
    pub open spec fn declare_all(self, names: Seq<Seq<char>>, i: int) -> Self
        decreases names.len() - i,
    {
        if i < 0 || i >= names.len() {
            self
        } else {
            self.binding_slot(names[i]).0.declare_all(names, i + 1)
        }
    }

    #[verifier::opaque]
    pub open spec fn define_class(self, name: Seq<char>, class: ClassView) -> Self {
        RView { class_defs: self.class_defs.set(name, class), ..self }
    }

    /// Give the name of a class its places before its methods are compiled.
    #[verifier::opaque]
    pub open spec fn declare_class(self, name: Seq<char>) -> Self {
        if self.is_function_scope {
            let t = self.local_reg(name).0;
            if t.needs_global(name) {
                t.global_slot(name).0
            } else {
                t
            }
        } else {
            self.global_slot(name).0
        }
    }

    /// Copy the parameters from position `i` on that nested functions refer to
    /// into global slots.
    #[verifier::opaque]
    pub open spec fn mirror_parameters(self, parameters: Seq<Seq<char>>, i: int) -> Self
        decreases parameters.len() - i,
    {
        if i < 0 || i >= parameters.len() {
            self
        } else if self.needs_global(parameters[i]) {
            let is_new = !self.globals.has(parameters[i]);
            let (t, g) = self.global_slot(parameters[i]);
            let u = t.emit(ROp::SetGlobal, seq![g, i as u16]);
            RView {
                shadow_slots: if is_new {
                    u.shadow_slots.insert(g)
                } else {
                    u.shadow_slots
                },
                ..u
            }.mirror_parameters(parameters, i + 1)
        } else {
            self.mirror_parameters(parameters, i + 1)
        }
    }

    /// Hide the locals that the statements of a block from position `i` on
    /// declare anew. Returns what they were as well.
    #[verifier::opaque]
    pub open spec fn enter_block(
        self,
        stmts: Seq<Statement>,
        i: int,
        hidden: Seq<(Seq<char>, Option<u16>)>,
    ) -> (Self, Seq<(Seq<char>, Option<u16>)>)
        decreases stmts.len() - i,
    {
        if i < 0 || i >= stmts.len() {
            (self, hidden)
        } else {
            match stmts[i] {
                Statement::Let { name, kind, .. } => if kind != VariableKind::Var {
                    RView { locals: self.locals.unset(name@), ..self }.enter_block(
                        stmts,
                        i + 1,
                        hidden.push((name@, self.locals.get(name@))),
                    )
                } else {
                    self.enter_block(stmts, i + 1, hidden)
                },
                _ => self.enter_block(stmts, i + 1, hidden),
            }
        }
    }

    /// Bring the hidden locals from position `i` on back.
    #[verifier::opaque]
    pub open spec fn exit_block(self, hidden: Seq<(Seq<char>, Option<u16>)>, i: int) -> Self
        decreases hidden.len() - i,
    {
        if i < 0 || i >= hidden.len() {
            self
        } else {
            let (name, old) = hidden[i];
            RView {
                locals: match old {
                    Some(r) => self.locals.set(name, r),
                    None => self.locals.unset(name),
                },
                ..self
            }.exit_block(hidden, i + 1)
        }
    }

    // Loops

    #[verifier::opaque]
    pub open spec fn open_loop(self, label: Option<Seq<char>>, continue_target: usize) -> Self {
        RView {
            loop_stack: self.loop_stack.push(
                LoopView {
                    label,
                    continue_target,
                    break_positions: Seq::empty(),
                    continue_positions: Seq::empty(),
                },
            ),
            ..self
        }
    }

    /// Let the innermost loop's `continue` go to the next instruction.
    #[verifier::opaque]
    pub open spec fn continue_here(self) -> Self {
        if self.loop_stack.len() == 0 {
            self
        } else {
            let n = self.loop_stack.len() - 1;
            RView {
                loop_stack: self.loop_stack.update(
                    n,
                    LoopView { continue_target: self.here(), ..self.loop_stack[n] },
                ),
                ..self
            }
        }
    }

    /// Leave the innermost loop, whose `break` goes to `end`.
    #[verifier::opaque]
    pub open spec fn close_loop(self, end: usize) -> Self {
        if self.loop_stack.len() == 0 {
            self
        } else {
            let ctx = self.loop_stack.last();
            RView { loop_stack: self.loop_stack.drop_last(), ..self }.patch_all(
                ctx.break_positions,
                0,
                end,
            ).patch_all(ctx.continue_positions, 0, ctx.continue_target)
        }
    }

    /// Leave the innermost switch, whose `break` goes to `end`.
    #[verifier::opaque]
    pub open spec fn close_switch(self, end: usize) -> Self {
        if self.loop_stack.len() == 0 {
            self
        } else {
            let ctx = self.loop_stack.last();
            let t = RView { loop_stack: without_switch(self.loop_stack), ..self }.patch_all(
                ctx.break_positions,
                0,
                end,
            );
            if self.loop_stack.len() == 1 && ctx.continue_positions.len() > 0 {
                t.fail("loop control outside loop"@)
            } else {
                t
            }
        }
    }

    /// A jump out of, or to the next turn of, a loop.
    #[verifier::opaque]
    pub open spec fn jump_from_loop(self, label: Option<Seq<char>>, is_break: bool) -> Self {
        let pos = self.here();
        let t = self.emit(ROp::Jump, seq![PLACEHOLDER]);
        match loop_index(t.loop_stack, label, t.loop_stack.len() as int) {
            Some(n) => {
                let ctx = t.loop_stack[n];
                RView {
                    loop_stack: t.loop_stack.update(
                        n,
                        if is_break {
                            LoopView { break_positions: ctx.break_positions.push(pos), ..ctx }
                        } else {
                            LoopView { continue_positions: ctx.continue_positions.push(pos), ..ctx }
                        },
                    ),
                    ..t
                }
            },
            None => match label {
                Some(l) => t.fail("unknown loop label '"@ + l + "'"@),
                None => t.fail("loop control outside loop"@),
            },
        }
    }

    // Exceptions

    /// Enter a `try` or `catch` block.
    #[verifier::opaque]
    pub open spec fn open_try(
        self,
        exception: Seq<char>,
        deferred_return: Option<(Seq<char>, Seq<char>)>,
    ) -> Self {
        RView {
            try_stack: self.try_stack.push(
                RTryView {
                    exception_temp: exception,
                    throw_jumps: Seq::empty(),
                    deferred_return,
                    return_jumps: Seq::empty(),
                },
            ),
            ..self
        }
    }

    /// Leave a `try` block, or a `catch` block that a `finally` block follows, and
    /// let the throws in it jump to the next instruction. Returns the jumps of the
    /// returns in it as well.
    #[verifier::opaque]
    pub open spec fn close_try(self) -> (Self, Seq<usize>) {
        if self.try_stack.len() == 0 {
            (self.fail("internal error: missing try context"@), Seq::empty())
        } else {
            let ctx = self.try_stack.last();
            (
                RView { try_stack: self.try_stack.drop_last(), ..self }.patch_all(
                    ctx.throw_jumps,
                    0,
                    self.here(),
                ),
                ctx.return_jumps,
            )
        }
    }

    /// Leave the exception in a register to the innermost handler.
    #[verifier::opaque]
    pub open spec fn throw_to_handler(self, src: u16) -> Self {
        let n = self.try_stack.len() - 1;
        let (exception, s) = if n >= 0 {
            (self.try_stack[n].exception_temp, self)
        } else {
            (self.hidden("exc_fallback"@), self.after_name())
        };
        let s = s.store_name(exception, src);
        let jump = s.here();
        let s = s.emit(ROp::Jump, seq![PLACEHOLDER]);
        if n < 0 || n >= s.try_stack.len() {
            s
        } else {
            RView {
                try_stack: s.try_stack.update(
                    n,
                    RTryView {
                        throw_jumps: s.try_stack[n].throw_jumps.push(jump),
                        ..s.try_stack[n]
                    },
                ),
                ..s
            }
        }
    }

    /// The variables of a return that has to wait for a `finally` block.
    #[verifier::opaque]
    pub open spec fn pending_return(self) -> Option<(Seq<char>, Seq<char>)> {
        match deferring(self.try_stack, self.try_stack.len() as int) {
            Some(n) => self.try_stack[n].deferred_return,
            None => None,
        }
    }

    /// Keep the value of a return, and jump to the `finally` block.
    #[verifier::opaque]
    pub open spec fn defer_return(self, value: Seq<char>, flag: Seq<char>, src: u16) -> Self {
        let s = self.store_name(value, src);
        let set = s.next_temp;
        let s = s.take_temp().emit(ROp::LoadTrue, seq![set]).store_name(flag, set);
        let jump = s.here();
        let s = s.emit(ROp::Jump, seq![PLACEHOLDER]);
        match deferring(s.try_stack, s.try_stack.len() as int) {
            None => s,
            Some(n) => RView {
                try_stack: s.try_stack.update(
                    n,
                    RTryView {
                        return_jumps: s.try_stack[n].return_jumps.push(jump),
                        ..s.try_stack[n]
                    },
                ),
                ..s
            },
        }
    }

    // Functions

    /// End a function's code. `last` is the register of its last value.
    #[verifier::opaque]
    pub open spec fn finish_function(self, last: Option<u16>) -> Self {
        let t = match last {
            Some(r) => self.emit(ROp::Return, seq![r]),
            None => self,
        };
        let code = t.instructions;
        let ends_in_return = code.len() > 0 && (code.last() == ROp::Return as u8 || code.last()
            == ROp::ReturnUndef as u8);
        let u = if ends_in_return {
            t
        } else {
            t.emit(ROp::ReturnUndef, seq![])
        };
        u.emit(ROp::Halt, seq![])
    }

    /// The state of the enclosing scope after a function was compiled in it,
    /// whose own state is `inner`.
    #[verifier::opaque]
    pub open spec fn after_function(self, inner: Self) -> Self {
        RView {
            err: if self.err is Some {
                self.err
            } else {
                inner.err
            },
            realm: inner.realm,
            next_global: if inner.next_global > self.next_global {
                inner.next_global
            } else {
                self.next_global
            },
            globals: self.globals.adopt(inner.globals, 0),
            ..self
        }
    }

    /// The function whose code `inner` holds, made inside `self`.
    #[verifier::opaque]
    pub open spec fn function(
        self,
        inner: Self,
        num_parameters: usize,
        rest_parameter_index: Option<usize>,
        takes_this: bool,
        is_async: bool,
        is_generator: bool,
    ) -> FunctionView {
        FunctionView {
            instructions: inner.instructions,
            constants: inner.constants,
            num_locals: inner.num_locals as usize,
            num_parameters,
            rest_parameter_index,
            takes_this,
            is_async,
            is_generator,
            num_cache_slots: inner.next_cache_slot,
            max_stack_depth: 0,
            register_count: next16(inner.max_reg),
            inline_cache: Seq::new(inner.next_cache_slot as nat, |i: int| (0u32, 0u32)),
            closure_captures: captured_slots(
                inner.globals,
                self.shadow_slots,
                inner.globals.order.len() as int,
            ),
            captured_values: Seq::empty(),
        }
    }
}

// Peephole patterns. Each returns the state, in which constants may have been
// added even where the pattern turns out not to apply, and the operands.

/// A numeric literal as a constant.
#[verifier::opaque]
pub open spec fn numeric_constant(s: RView, e: Expression) -> (RView, Option<u16>) {
    match e {
        Expression::Integer(v) => {
            let (t, idx) = s.add_int(v);
            (t, Some(idx))
        },
        Expression::Float(bits) => {
            let (t, idx) = s.add_float(bits);
            (t, Some(idx))
        },
        _ => (s, None),
    }
}

/// `local < number` or `local <= number`: the register, the constant, and
/// whether equality counts.
#[verifier::opaque]
pub open spec fn rfuse_compare(s: RView, e: Expression) -> (RView, Option<(u16, u16, bool)>) {
    match e {
        Expression::Infix { left, operator, right } => match *left {
            Expression::Identifier(name) => if (operator@ == "<"@ || operator@ == "<="@)
                && s.locals.has(name@) {
                match numeric_constant(s, *right) {
                    (t, Some(idx)) => (
                        t,
                        Some((s.locals.map[name@], idx, operator@ == "<="@)),
                    ),
                    (t, None) => (t, None),
                }
            } else {
                (s, None)
            },
            _ => (s, None),
        },
        _ => (s, None),
    }
}

/// `(local % number) === number`: the register and the two constants.
#[verifier::opaque]
pub open spec fn rfuse_mod_eq(s: RView, e: Expression) -> (RView, Option<(u16, u16, u16)>) {
    match e {
        Expression::Infix { left, operator, right } => match *left {
            Expression::Infix { left: dividend, operator: inner, right: divisor } =>
            match *dividend {
                Expression::Identifier(name) => if operator@ == "==="@ && inner@ == "%"@
                    && s.locals.has(name@) {
                    match numeric_constant(s, *divisor) {
                        (t, None) => (t, None),
                        (t, Some(m)) => match numeric_constant(t, *right) {
                            (u, None) => (u, None),
                            (u, Some(c)) => (u, Some((s.locals.map[name@], m, c))),
                        },
                    }
                } else {
                    (s, None)
                },
                _ => (s, None),
            },
            _ => (s, None),
        },
        _ => (s, None),
    }
}

/// An increment of a local by a number: its register, the constant, its name. A
/// constant is not incremented.
#[verifier::opaque]
pub open spec fn rfuse_increment(s: RView, e: Expression) -> (
    RView,
    Option<(u16, u16, Seq<char>)>,
) {
    match increment_operand(e) {
        None => (s, None),
        Some((name, amount)) => if s.locals.has(name) && !s.const_bindings.contains(name) {
            match numeric_constant(s, amount) {
                (t, Some(idx)) => (t, Some((s.locals.map[name], idx, name))),
                (t, None) => (t, None),
            }
        } else {
            (s, None)
        },
    }
}

} // verus!
