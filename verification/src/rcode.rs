//! Register-machine instruction set: opcodes, their operand layout, and the
//! byte encoding of one instruction.
use vstd::prelude::*;

use crate::code::{high_byte, low_byte, operand_bytes_of, operand_field, widths_total};

verus! {

/// Register-based opcode set.
///
/// Each instruction explicitly names source/destination registers (u16 indices)
/// within the current call frame's register window. Operand widths are 1 (u8,
/// small count or flag) or 2 (u16, register index / constant index / global
/// index / jump target / cache slot).
#[derive(Clone, Copy, Debug, PartialEq, Eq, Structural)]
pub enum ROp {
    // Loads
    /// Load constant into register.  [dst:2, const_idx:2]
    LoadConst,
    /// Load `true`.  [dst:2]
    LoadTrue,
    /// Load `false`.  [dst:2]
    LoadFalse,
    /// Load `null`.  [dst:2]
    LoadNull,
    /// Load `undefined`.  [dst:2]
    LoadUndef,

    // Register ops
    /// Copy register.  [dst:2, src:2]
    Move,

    // Global access
    /// Load global into register.  [dst:2, global_idx:2]
    GetGlobal,
    /// Store register into global.  [global_idx:2, src:2]
    SetGlobal,

    // Arithmetic
    /// [dst:2, left:2, right:2]
    Add,
    Sub,
    Mul,
    Div,
    Mod,
    Pow,

    // Comparison
    /// [dst:2, left:2, right:2]
    Equal,
    NotEqual,
    StrictEqual,
    StrictNotEqual,
    GreaterThan,
    GreaterOrEqual,
    LessThan,
    LessOrEqual,
    Instanceof,
    In,

    // Bitwise
    /// [dst:2, left:2, right:2]
    BitwiseAnd,
    BitwiseOr,
    BitwiseXor,
    LeftShift,
    RightShift,
    UnsignedRightShift,

    // Unary
    /// [dst:2, src:2]
    Neg,
    Not,
    UnaryPlus,
    Typeof,
    IsNullish,

    // Control flow
    /// Unconditional jump.  [target:2]
    Jump,
    /// Jump if register is falsy.  [cond:2, target:2]
    JumpIfNot,
    /// Jump if register is truthy.  [cond:2, target:2]
    JumpIfTruthy,

    // Function calls
    /// Call function in `base` register with args in base+1..base+nargs.
    /// Result goes into `dst`.  [dst:2, base:2, nargs:1]
    Call,
    /// Fused method call: obj.method(args).  Object in `base` register,
    /// args in base+1..base+nargs.  [dst:2, base:2, nargs:1, prop_const:2, cache:2]
    CallMethod,
    /// Call with spread args array.  [dst:2, func:2, args_arr:2]
    CallSpread,
    /// Return value from function.  [src:2]
    Return,
    /// Return undefined from function.  []
    ReturnUndef,

    // Constructors
    /// `new` with args in base+1..base+nargs.  [dst:2, base:2, nargs:1]
    New,
    /// `new` with spread args.  [dst:2, class:2, args_arr:2]
    NewSpread,
    /// Load super reference.  [dst:2]
    Super,

    // Collections
    /// Create array from contiguous regs base..base+count-1.  [dst:2, base:2, count:2]
    Array,
    /// Create hash from contiguous regs (key,val pairs).  [dst:2, base:2, count:2]
    Hash,
    /// Append element to array.  [arr:2, val:2]
    AppendElement,
    /// Spread-append iterable to array.  [arr:2, iterable:2]
    AppendSpread,

    // Property access
    /// Get named property (inline-cached).  [dst:2, obj:2, prop_const:2, cache:2]
    GetProp,
    /// Set named property (inline-cached). Keeps value.  [obj:2, prop_const:2, src:2, cache:2]
    SetProp,
    /// Get property on global object.  [dst:2, global_idx:2, prop_const:2, cache:2]
    GetGlobalProp,
    /// Set property on global object.  [global_idx:2, prop_const:2, src:2, cache:2]
    SetGlobalProp,

    // Index access
    /// Dynamic index read.  [dst:2, obj:2, key:2]
    Index,
    /// Dynamic index write.  [obj:2, key:2, val:2]
    SetIndex,
    /// Delete property.  [dst:2, obj:2, key:2]
    DeleteProp,

    // Iterator / destructuring
    /// Slice array from index.  [dst:2, iterable:2, skip:2]
    IteratorRest,
    /// Get object keys as array.  [dst:2, obj:2]
    GetKeysIter,
    /// Object rest (exclude keys in keys_base..keys_base+count-1).
    /// [dst:2, obj:2, keys_base:2, count:2]
    ObjectRest,

    // Async
    /// Await a value.  [dst:2, src:2]
    Await,

    // Error
    /// Throw value.  [src:2]
    Throw,

    // Fused
    /// Fused: load global, call with args.  [dst:2, global_idx:2, base:2, nargs:1]
    CallGlobal,
    /// Fused: regs[dst] = regs[src] + constants[idx].  [dst:2, src:2, const_idx:2]
    AddRegConst,
    /// Fused: if !(regs[r] < constants[idx]) jump target.  [r:2, const_idx:2, target:2]
    TestLtConstJump,
    /// Fused: if !(regs[r] <= constants[idx]) jump target.  [r:2, const_idx:2, target:2]
    TestLeConstJump,
    /// Fused: regs[r] += constants[idx]; jump target.  [r:2, const_idx:2, target:2]
    IncrementRegAndJump,
    /// Fused: if !((regs[r] % const_a) === const_b) jump target.
    /// [r:2, mod_const:2, cmp_const:2, target:2]
    ModRegConstStrictEqConstJump,
    /// Fused: obj.prop += const (with inline cache).
    /// [obj:2, prop_const:2, val_const:2, cache:2]
    AddConstToRegProp,
    /// Fused: obj.dst_prop = obj.src1_prop + obj.src2_prop (with inline cache).
    /// [obj:2, s1_prop:2, s1_cache:2, s2_prop:2, s2_cache:2, dst_prop:2, dst_cache:2]
    AddRegPropsToRegProp,

    /// Define a getter or setter on a hash object.
    /// [hash:2, func:2, prop_const:2, kind:1] where kind 0 = getter, 1 = setter.
    DefineAccessor,

    /// Run static initializers on a class object (in-place).
    /// [dst:2] - reads class from dst register, runs static initializers, writes back.
    InitClass,

    /// Load `new.target` into register.  [dst:2]
    NewTarget,
    /// Load `import.meta` into register.  [dst:2]
    ImportMeta,
    /// Yield a value from a generator.  [dst:2, src:2]
    /// `src` is the yielded value; on resume, the value passed to `.next(v)`
    /// is written to `dst`.
    Yield,

    // Closures
    /// Create a closure by snapshotting captured global slots.
    /// [dst:2, const_idx:2, count:1]
    /// Followed by `count` pairs of [slot:2] - the global slot indices to capture.
    MakeClosure,

    // Halt
    /// Halt execution (no result).  []
    Halt,
    /// Halt execution with result.  [src:2]
    HaltValue,
}

/// The operand widths of a register opcode, in encoding order. For
/// `MakeClosure` these are the fixed operands; the captured slots follow.
pub open spec fn rwidths_of(op: ROp) -> Seq<usize> {
    match op {
        ROp::ReturnUndef
        | ROp::Halt => Seq::empty(),
        ROp::LoadTrue
        | ROp::LoadFalse
        | ROp::LoadNull
        | ROp::LoadUndef
        | ROp::Jump
        | ROp::Return
        | ROp::Super
        | ROp::Throw
        | ROp::InitClass
        | ROp::NewTarget
        | ROp::ImportMeta
        | ROp::HaltValue => seq![2usize],
        ROp::LoadConst
        | ROp::Move
        | ROp::GetGlobal
        | ROp::SetGlobal
        | ROp::Neg
        | ROp::Not
        | ROp::UnaryPlus
        | ROp::Typeof
        | ROp::IsNullish
        | ROp::JumpIfNot
        | ROp::JumpIfTruthy
        | ROp::AppendElement
        | ROp::AppendSpread
        | ROp::GetKeysIter
        | ROp::Await
        | ROp::Yield => seq![2usize, 2usize],
        ROp::Call
        | ROp::New
        | ROp::MakeClosure => seq![2usize, 2usize, 1usize],
        ROp::Add
        | ROp::Sub
        | ROp::Mul
        | ROp::Div
        | ROp::Mod
        | ROp::Pow
        | ROp::Equal
        | ROp::NotEqual
        | ROp::StrictEqual
        | ROp::StrictNotEqual
        | ROp::GreaterThan
        | ROp::GreaterOrEqual
        | ROp::LessThan
        | ROp::LessOrEqual
        | ROp::Instanceof
        | ROp::In
        | ROp::BitwiseAnd
        | ROp::BitwiseOr
        | ROp::BitwiseXor
        | ROp::LeftShift
        | ROp::RightShift
        | ROp::UnsignedRightShift
        | ROp::CallSpread
        | ROp::NewSpread
        | ROp::Array
        | ROp::Hash
        | ROp::Index
        | ROp::SetIndex
        | ROp::DeleteProp
        | ROp::IteratorRest
        | ROp::AddRegConst
        | ROp::TestLtConstJump
        | ROp::TestLeConstJump
        | ROp::IncrementRegAndJump => seq![2usize, 2usize, 2usize],
        ROp::CallGlobal
        | ROp::DefineAccessor => seq![2usize, 2usize, 2usize, 1usize],
        ROp::GetProp
        | ROp::SetProp
        | ROp::GetGlobalProp
        | ROp::SetGlobalProp
        | ROp::ObjectRest
        | ROp::ModRegConstStrictEqConstJump
        | ROp::AddConstToRegProp => seq![2usize, 2usize, 2usize, 2usize],
        ROp::CallMethod => seq![2usize, 2usize, 1usize, 2usize, 2usize],
        ROp::AddRegPropsToRegProp => seq![2usize, 2usize, 2usize, 2usize, 2usize, 2usize, 2usize],
    }
}

/// Big-endian 16-bit words, one after the other.
pub open spec fn words(slots: Seq<u16>) -> Seq<u8>
    decreases slots.len(),
{
    if slots.len() == 0 {
        Seq::empty()
    } else {
        words(slots.drop_last()) + operand_field(2, slots.last())
    }
}

/// The slot list that follows the fixed operands: present on `MakeClosure`
/// alone, holding every operand after the third.
pub open spec fn closure_tail(op: ROp, operands: Seq<u16>) -> Seq<u16> {
    if op == ROp::MakeClosure && operands.len() > 3 {
        operands.skip(3)
    } else {
        Seq::empty()
    }
}

/// The encoding of one register instruction.
pub open spec fn rencode(op: ROp, operands: Seq<u16>) -> Seq<u8> {
    seq![op as u8] + operand_bytes_of(rwidths_of(op), operands, rwidths_of(op).len() as int)
        + words(closure_tail(op, operands))
}

impl ROp {
    /// The opcode whose byte is `value`, if there is one.
    pub fn from_byte(value: u8) -> (r: Option<Self>)
        ensures
            match r {
                Some(op) => op as u8 == value,
                None => value > ROp::HaltValue as u8,
            },
    {
        match value {
            0 => Some(ROp::LoadConst),
            1 => Some(ROp::LoadTrue),
            2 => Some(ROp::LoadFalse),
            3 => Some(ROp::LoadNull),
            4 => Some(ROp::LoadUndef),
            5 => Some(ROp::Move),
            6 => Some(ROp::GetGlobal),
            7 => Some(ROp::SetGlobal),
            8 => Some(ROp::Add),
            9 => Some(ROp::Sub),
            10 => Some(ROp::Mul),
            11 => Some(ROp::Div),
            12 => Some(ROp::Mod),
            13 => Some(ROp::Pow),
            14 => Some(ROp::Equal),
            15 => Some(ROp::NotEqual),
            16 => Some(ROp::StrictEqual),
            17 => Some(ROp::StrictNotEqual),
            18 => Some(ROp::GreaterThan),
            19 => Some(ROp::GreaterOrEqual),
            20 => Some(ROp::LessThan),
            21 => Some(ROp::LessOrEqual),
            22 => Some(ROp::Instanceof),
            23 => Some(ROp::In),
            24 => Some(ROp::BitwiseAnd),
            25 => Some(ROp::BitwiseOr),
            26 => Some(ROp::BitwiseXor),
            27 => Some(ROp::LeftShift),
            28 => Some(ROp::RightShift),
            29 => Some(ROp::UnsignedRightShift),
            30 => Some(ROp::Neg),
            31 => Some(ROp::Not),
            32 => Some(ROp::UnaryPlus),
            33 => Some(ROp::Typeof),
            34 => Some(ROp::IsNullish),
            35 => Some(ROp::Jump),
            36 => Some(ROp::JumpIfNot),
            37 => Some(ROp::JumpIfTruthy),
            38 => Some(ROp::Call),
            39 => Some(ROp::CallMethod),
            40 => Some(ROp::CallSpread),
            41 => Some(ROp::Return),
            42 => Some(ROp::ReturnUndef),
            43 => Some(ROp::New),
            44 => Some(ROp::NewSpread),
            45 => Some(ROp::Super),
            46 => Some(ROp::Array),
            47 => Some(ROp::Hash),
            48 => Some(ROp::AppendElement),
            49 => Some(ROp::AppendSpread),
            50 => Some(ROp::GetProp),
            51 => Some(ROp::SetProp),
            52 => Some(ROp::GetGlobalProp),
            53 => Some(ROp::SetGlobalProp),
            54 => Some(ROp::Index),
            55 => Some(ROp::SetIndex),
            56 => Some(ROp::DeleteProp),
            57 => Some(ROp::IteratorRest),
            58 => Some(ROp::GetKeysIter),
            59 => Some(ROp::ObjectRest),
            60 => Some(ROp::Await),
            61 => Some(ROp::Throw),
            62 => Some(ROp::CallGlobal),
            63 => Some(ROp::AddRegConst),
            64 => Some(ROp::TestLtConstJump),
            65 => Some(ROp::TestLeConstJump),
            66 => Some(ROp::IncrementRegAndJump),
            67 => Some(ROp::ModRegConstStrictEqConstJump),
            68 => Some(ROp::AddConstToRegProp),
            69 => Some(ROp::AddRegPropsToRegProp),
            70 => Some(ROp::DefineAccessor),
            71 => Some(ROp::InitClass),
            72 => Some(ROp::NewTarget),
            73 => Some(ROp::ImportMeta),
            74 => Some(ROp::Yield),
            75 => Some(ROp::MakeClosure),
            76 => Some(ROp::Halt),
            77 => Some(ROp::HaltValue),
            _ => None,
        }
    }

    /// Total instruction size in bytes (opcode + fixed operands).
    pub fn size(self) -> (n: usize)
        ensures
            n == 1 + widths_total(rwidths_of(self), rwidths_of(self).len() as int),
    {
        1 + self.operand_bytes()
    }

    /// Total operand bytes (not including the opcode byte itself). On
    /// `MakeClosure` this is the fixed part; callers add two bytes per slot.
    pub fn operand_bytes(self) -> (n: usize)
        ensures
            n == widths_total(rwidths_of(self), rwidths_of(self).len() as int),
            n <= 14,
    {
        proof {
            reveal_with_fuel(widths_total, 9);
        }
        match self {
            ROp::ReturnUndef
            | ROp::Halt => 0,
            ROp::LoadTrue
            | ROp::LoadFalse
            | ROp::LoadNull
            | ROp::LoadUndef
            | ROp::Jump
            | ROp::Return
            | ROp::Super
            | ROp::Throw
            | ROp::InitClass
            | ROp::NewTarget
            | ROp::ImportMeta
            | ROp::HaltValue => 2,
            ROp::LoadConst
            | ROp::Move
            | ROp::GetGlobal
            | ROp::SetGlobal
            | ROp::Neg
            | ROp::Not
            | ROp::UnaryPlus
            | ROp::Typeof
            | ROp::IsNullish
            | ROp::JumpIfNot
            | ROp::JumpIfTruthy
            | ROp::AppendElement
            | ROp::AppendSpread
            | ROp::GetKeysIter
            | ROp::Await
            | ROp::Yield => 4,
            ROp::Call
            | ROp::New
            | ROp::MakeClosure => 5,
            ROp::Add
            | ROp::Sub
            | ROp::Mul
            | ROp::Div
            | ROp::Mod
            | ROp::Pow
            | ROp::Equal
            | ROp::NotEqual
            | ROp::StrictEqual
            | ROp::StrictNotEqual
            | ROp::GreaterThan
            | ROp::GreaterOrEqual
            | ROp::LessThan
            | ROp::LessOrEqual
            | ROp::Instanceof
            | ROp::In
            | ROp::BitwiseAnd
            | ROp::BitwiseOr
            | ROp::BitwiseXor
            | ROp::LeftShift
            | ROp::RightShift
            | ROp::UnsignedRightShift
            | ROp::CallSpread
            | ROp::NewSpread
            | ROp::Array
            | ROp::Hash
            | ROp::Index
            | ROp::SetIndex
            | ROp::DeleteProp
            | ROp::IteratorRest
            | ROp::AddRegConst
            | ROp::TestLtConstJump
            | ROp::TestLeConstJump
            | ROp::IncrementRegAndJump => 6,
            ROp::CallGlobal
            | ROp::DefineAccessor => 7,
            ROp::GetProp
            | ROp::SetProp
            | ROp::GetGlobalProp
            | ROp::SetGlobalProp
            | ROp::ObjectRest
            | ROp::ModRegConstStrictEqConstJump
            | ROp::AddConstToRegProp => 8,
            ROp::CallMethod => 9,
            ROp::AddRegPropsToRegProp => 14,
        }
    }
}

/// The operand widths of a register opcode, in encoding order.
fn rwidths(op: ROp) -> (widths: &'static [usize])
    ensures
        widths@ == rwidths_of(op),
{
    let widths: &'static [usize] = match op {
        ROp::ReturnUndef
        | ROp::Halt => &[],
        ROp::LoadTrue
        | ROp::LoadFalse
        | ROp::LoadNull
        | ROp::LoadUndef
        | ROp::Jump
        | ROp::Return
        | ROp::Super
        | ROp::Throw
        | ROp::InitClass
        | ROp::NewTarget
        | ROp::ImportMeta
        | ROp::HaltValue => &[2],
        ROp::LoadConst
        | ROp::Move
        | ROp::GetGlobal
        | ROp::SetGlobal
        | ROp::Neg
        | ROp::Not
        | ROp::UnaryPlus
        | ROp::Typeof
        | ROp::IsNullish
        | ROp::JumpIfNot
        | ROp::JumpIfTruthy
        | ROp::AppendElement
        | ROp::AppendSpread
        | ROp::GetKeysIter
        | ROp::Await
        | ROp::Yield => &[2, 2],
        ROp::Call
        | ROp::New
        | ROp::MakeClosure => &[2, 2, 1],
        ROp::Add
        | ROp::Sub
        | ROp::Mul
        | ROp::Div
        | ROp::Mod
        | ROp::Pow
        | ROp::Equal
        | ROp::NotEqual
        | ROp::StrictEqual
        | ROp::StrictNotEqual
        | ROp::GreaterThan
        | ROp::GreaterOrEqual
        | ROp::LessThan
        | ROp::LessOrEqual
        | ROp::Instanceof
        | ROp::In
        | ROp::BitwiseAnd
        | ROp::BitwiseOr
        | ROp::BitwiseXor
        | ROp::LeftShift
        | ROp::RightShift
        | ROp::UnsignedRightShift
        | ROp::CallSpread
        | ROp::NewSpread
        | ROp::Array
        | ROp::Hash
        | ROp::Index
        | ROp::SetIndex
        | ROp::DeleteProp
        | ROp::IteratorRest
        | ROp::AddRegConst
        | ROp::TestLtConstJump
        | ROp::TestLeConstJump
        | ROp::IncrementRegAndJump => &[2, 2, 2],
        ROp::CallGlobal
        | ROp::DefineAccessor => &[2, 2, 2, 1],
        ROp::GetProp
        | ROp::SetProp
        | ROp::GetGlobalProp
        | ROp::SetGlobalProp
        | ROp::ObjectRest
        | ROp::ModRegConstStrictEqConstJump
        | ROp::AddConstToRegProp => &[2, 2, 2, 2],
        ROp::CallMethod => &[2, 2, 1, 2, 2],
        ROp::AddRegPropsToRegProp => &[2, 2, 2, 2, 2, 2, 2],
    };
    assert(widths@ =~= rwidths_of(op));
    widths
}

/// Encode a register-based instruction into a byte vector. Operands that are
/// missing are encoded as zero; operands beyond the layout are ignored, except
/// on `MakeClosure`, where they are the captured slots.
pub fn rmake(op: ROp, operands: &[u16]) -> (out: Vec<u8>)
    ensures
        out@ == rencode(op, operands@),
{
    let widths = rwidths(op);
    let mut out: Vec<u8> = Vec::new();
    out.push(op as u8);
    let mut i: usize = 0;
    while i < widths.len()
        invariant
            widths@ == rwidths_of(op),
            0 <= i <= widths@.len(),
            out@ =~= seq![op as u8] + operand_bytes_of(widths@, operands@, i as int),
        decreases widths@.len() - i,
    {
        let operand: u16 = if i < operands.len() {
            operands[i]
        } else {
            0
        };
        if widths[i] == 2 {
            out.push(high_byte(operand));
            out.push(low_byte(operand));
        } else {
            out.push(low_byte(operand));
        }
        i += 1;
    }
    if op == ROp::MakeClosure && operands.len() > 3 {
        let ghost fixed = out@;
        let mut k: usize = 3;
        assert(operands@.subrange(3, 3) =~= Seq::empty());
        while k < operands.len()
            invariant
                3 <= k <= operands@.len(),
                out@ =~= fixed + words(operands@.subrange(3, k as int)),
            decreases operands@.len() - k,
        {
            proof {
                let longer = operands@.subrange(3, k as int + 1);
                assert(longer.drop_last() =~= operands@.subrange(3, k as int));
                assert(longer.last() == operands@[k as int]);
            }
            out.push(high_byte(operands[k]));
            out.push(low_byte(operands[k]));
            k += 1;
        }
        assert(operands@.subrange(3, operands@.len() as int) =~= operands@.skip(3));
    } else {
        assert(out@ =~= rencode(op, operands@));
    }
    out
}

proof fn lemma_words_len(slots: Seq<u16>)
    ensures
        words(slots).len() == 2 * slots.len(),
    decreases slots.len(),
{
    if slots.len() > 0 {
        lemma_words_len(slots.drop_last());
    }
}

proof fn lemma_rfield_bytes_len(op: ROp, operands: Seq<u16>, n: int)
    requires
        0 <= n <= rwidths_of(op).len(),
    ensures
        operand_bytes_of(rwidths_of(op), operands, n).len() == widths_total(rwidths_of(op), n),
    decreases n,
{
    if n > 0 {
        lemma_rfield_bytes_len(op, operands, n - 1);
    }
}

/// An encoded register instruction is as long as its opcode's size says, plus
/// two bytes for each captured slot of a `MakeClosure`.
pub proof fn law_rencode_length(op: ROp, operands: Seq<u16>)
    ensures
        rencode(op, operands).len() == 1 + widths_total(
            rwidths_of(op),
            rwidths_of(op).len() as int,
        ) + 2 * closure_tail(op, operands).len(),
        rencode(op, operands)[0] == op as u8,
{
    lemma_rfield_bytes_len(op, operands, rwidths_of(op).len() as int);
    lemma_words_len(closure_tail(op, operands));
}

/// Register opcodes and the bytes up to the last one stand in one-to-one
/// correspondence.
pub proof fn law_rop_bytes_distinct(a: ROp, b: ROp)
    ensures
        (a as u8 == b as u8) == (a == b),
        a as u8 <= ROp::HaltValue as u8,
{
}

} // verus!
