//! Stack-machine instruction set: opcodes, their operand layout, and the
//! byte encoding of one instruction.
use vstd::prelude::*;

verus! {

#[derive(Clone, Copy, Debug, PartialEq, Eq, Structural)]
pub enum Opcode {
    OpConstant,
    OpAdd,
    OpSub,
    OpMul,
    OpDiv,
    OpMod,
    OpPop,
    OpTrue,
    OpFalse,
    OpNull,
    OpUndefined,
    OpEqual,
    OpNotEqual,
    OpGreaterThan,
    OpMinus,
    OpBang,
    OpJumpNotTruthy,
    OpJump,
    OpGetGlobal,
    OpSetGlobal,
    OpGetLocal,
    OpSetLocal,
    OpArray,
    OpHash,
    OpIndex,
    OpCall,
    OpReturnValue,
    OpReturn,
    OpGetProperty,
    OpGetLocalProperty,
    OpGetGlobalProperty,
    OpSetLocalProperty,
    OpSetGlobalProperty,
    OpAwait,
    OpAppendElement,
    OpAppendSpread,
    OpThrow,
    OpSetIndex,
    OpNew,
    OpSuper,
    OpTypeof,
    OpPow,
    OpIsNullish,
    OpStrictEqual,
    OpStrictNotEqual,
    OpInstanceof,
    OpIn,
    OpDeleteProperty,
    OpUnsignedRightShift,
    OpBitwiseAnd,
    OpBitwiseOr,
    OpBitwiseXor,
    OpLeftShift,
    OpRightShift,
    OpLessThan,
    OpLessOrEqual,
    OpGreaterOrEqual,
    OpIteratorRest,
    OpGetKeysIterator,
    OpObjectRest,
    OpUnaryPlus,
    OpCallSpread,
    OpNewSpread,
    OpSetLocalPropertyPop,
    OpSetGlobalPropertyPop,
    /// Fused: local[idx] += constants[const_idx] (numeric add), no stack effect.
    /// Replaces: OpGetLocal + OpConstant + OpAdd + OpSetLocal + OpGetLocal + OpPop
    /// Operands: [local_idx: u16, const_idx: u16]
    OpIncrementLocal,
    /// Fused: if !(local[idx] < constants[const_idx]) jump target.
    /// Replaces: OpGetLocal + OpConstant + OpLessThan + OpJumpNotTruthy
    /// Operands: [local_idx: u16, const_idx: u16, jump_target: u16]
    OpTestLocalLtConstJump,
    /// Fused: if !(local[idx] <= constants[const_idx]) jump target.
    /// Replaces: OpGetLocal + OpConstant + OpLessOrEqual + OpJumpNotTruthy
    /// Operands: [local_idx: u16, const_idx: u16, jump_target: u16]
    OpTestLocalLeConstJump,
    /// Fused: globals[idx] += constants[const_idx] (numeric add), no stack effect.
    /// Replaces: OpGetGlobal + OpConstant + OpAdd + OpSetGlobal + OpGetGlobal + OpPop
    /// Operands: [global_idx: u16, const_idx: u16]
    OpIncrementGlobal,
    /// Fused: if !(globals[idx] < constants[const_idx]) jump target.
    /// Replaces: OpGetGlobal + OpConstant + OpLessThan + OpJumpNotTruthy
    /// Operands: [global_idx: u16, const_idx: u16, jump_target: u16]
    OpTestGlobalLtConstJump,
    /// Fused: if !(globals[idx] <= constants[const_idx]) jump target.
    /// Replaces: OpGetGlobal + OpConstant + OpLessOrEqual + OpJumpNotTruthy
    /// Operands: [global_idx: u16, const_idx: u16, jump_target: u16]
    OpTestGlobalLeConstJump,
    /// Fused: globals[target] = globals[target] + globals[source] (numeric add), no stack effect.
    /// Replaces: OpGetGlobal + OpGetGlobal + OpAdd + OpSetGlobal (+ elided OpGetGlobal + OpPop)
    /// Operands: [target_idx: u16, source_idx: u16]
    OpAccumulateGlobal,
    /// Fused: globals[idx] += constants[const_idx]; jump target (always backward).
    /// Replaces: OpIncrementGlobal + OpJump at end of for-loop update.
    /// Operands: [global_idx: u16, const_idx: u16, jump_target: u16]
    OpIncrementGlobalAndJump,
    /// Fused: call globals[global_idx] with num_args args from stack.
    /// Replaces: OpGetGlobal + OpCall when calling a named global function.
    /// Eliminates Box allocation for CompiledFunctionObject clone.
    /// Operands: [global_idx: u16, num_args: u16]
    OpCallGlobal,
    /// Fused: if !((globals[idx] % constants[mod_const]) === constants[cmp_const]) jump target.
    /// Replaces: OpGetGlobal + OpConstant + OpMod + OpConstant + OpStrictEqual + OpJumpNotTruthy
    /// Operands: [global_idx: u16, mod_const_idx: u16, cmp_const_idx: u16, jump_target: u16]
    OpModGlobalConstStrictEqConstJump,
    /// Fused: globals[global_idx].prop += constants[val_const_idx] (numeric add in-place).
    /// Replaces: OpGetGlobalProperty + OpConstant + OpAdd + OpSetGlobalPropertyPop
    /// Operands: [global_idx: u16, prop_const_idx: u16, val_const_idx: u16, cache_slot: u16]
    OpAddConstToGlobalProperty,
    /// Fused: globals[obj].dst_prop = globals[obj].src_prop1 + globals[obj].src_prop2 (in-place).
    /// Replaces: OpGetGlobalProperty(obj,src1) + OpGetGlobalProperty(obj,src2) + OpAdd + OpSetGlobalPropertyPop(obj,dst)
    /// Operands: [global_idx: u16, src1_prop_const: u16, src1_cache: u16, src2_prop_const: u16, src2_cache: u16, dst_prop_const: u16, dst_cache: u16]
    OpAddGlobalPropsToGlobalProp,
    /// Define a getter or setter on a hash object.
    /// Stack: [hash, compiled_function] -> [hash].
    /// Operands: [prop_const_idx: u16, kind: u16] where kind 0 = getter, 1 = setter.
    OpDefineAccessor,
    /// Run static initializers (fields and blocks) on a class.
    /// Stack: [class] -> [class] (class is mutated in place).
    /// Operands: [] (no operands).
    OpInitClass,
    /// Push `new.target` value onto the stack.
    /// Operands: [] (no operands).
    OpNewTarget,
    /// Push `import.meta` object onto the stack.
    /// Operands: [] (no operands).
    OpImportMeta,
    /// Yield a value from a generator function.
    /// Stack: [value] -> [received_value].
    /// The dispatch loop breaks with the yielded value; on resume, the
    /// value passed to `.next(v)` is pushed.
    /// Operands: [] (no operands).
    OpYield,
    OpHalt,
}

/// The layout of one opcode: its printable name and the width in bytes of each
/// operand that follows it.
#[derive(Clone, Debug)]
pub struct Definition {
    pub name: &'static str,
    pub operand_widths: &'static [usize],
}

/// The printable name of an opcode.
pub open spec fn op_label(op: Opcode) -> Seq<char> {
    match op {
        Opcode::OpConstant => "OpConstant"@,
        Opcode::OpAdd => "OpAdd"@,
        Opcode::OpSub => "OpSub"@,
        Opcode::OpMul => "OpMul"@,
        Opcode::OpDiv => "OpDiv"@,
        Opcode::OpMod => "OpMod"@,
        Opcode::OpPop => "OpPop"@,
        Opcode::OpTrue => "OpTrue"@,
        Opcode::OpFalse => "OpFalse"@,
        Opcode::OpNull => "OpNull"@,
        Opcode::OpUndefined => "OpUndefined"@,
        Opcode::OpEqual => "OpEqual"@,
        Opcode::OpNotEqual => "OpNotEqual"@,
        Opcode::OpGreaterThan => "OpGreaterThan"@,
        Opcode::OpMinus => "OpMinus"@,
        Opcode::OpBang => "OpBang"@,
        Opcode::OpJumpNotTruthy => "OpJumpNotTruthy"@,
        Opcode::OpJump => "OpJump"@,
        Opcode::OpGetGlobal => "OpGetGlobal"@,
        Opcode::OpSetGlobal => "OpSetGlobal"@,
        Opcode::OpGetLocal => "OpGetLocal"@,
        Opcode::OpSetLocal => "OpSetLocal"@,
        Opcode::OpArray => "OpArray"@,
        Opcode::OpHash => "OpHash"@,
        Opcode::OpIndex => "OpIndex"@,
        Opcode::OpCall => "OpCall"@,
        Opcode::OpReturnValue => "OpReturnValue"@,
        Opcode::OpReturn => "OpReturn"@,
        Opcode::OpGetProperty => "OpGetProperty"@,
        Opcode::OpGetLocalProperty => "OpGetLocalProperty"@,
        Opcode::OpGetGlobalProperty => "OpGetGlobalProperty"@,
        Opcode::OpSetLocalProperty => "OpSetLocalProperty"@,
        Opcode::OpSetGlobalProperty => "OpSetGlobalProperty"@,
        Opcode::OpAwait => "OpAwait"@,
        Opcode::OpAppendElement => "OpAppendElement"@,
        Opcode::OpAppendSpread => "OpAppendSpread"@,
        Opcode::OpThrow => "OpThrow"@,
        Opcode::OpSetIndex => "OpSetIndex"@,
        Opcode::OpNew => "OpNew"@,
        Opcode::OpSuper => "OpSuper"@,
        Opcode::OpTypeof => "OpTypeof"@,
        Opcode::OpPow => "OpPow"@,
        Opcode::OpIsNullish => "OpIsNullish"@,
        Opcode::OpStrictEqual => "OpStrictEqual"@,
        Opcode::OpStrictNotEqual => "OpStrictNotEqual"@,
        Opcode::OpInstanceof => "OpInstanceof"@,
        Opcode::OpIn => "OpIn"@,
        Opcode::OpDeleteProperty => "OpDeleteProperty"@,
        Opcode::OpUnsignedRightShift => "OpUnsignedRightShift"@,
        Opcode::OpBitwiseAnd => "OpBitwiseAnd"@,
        Opcode::OpBitwiseOr => "OpBitwiseOr"@,
        Opcode::OpBitwiseXor => "OpBitwiseXor"@,
        Opcode::OpLeftShift => "OpLeftShift"@,
        Opcode::OpRightShift => "OpRightShift"@,
        Opcode::OpLessThan => "OpLessThan"@,
        Opcode::OpLessOrEqual => "OpLessOrEqual"@,
        Opcode::OpGreaterOrEqual => "OpGreaterOrEqual"@,
        Opcode::OpIteratorRest => "OpIteratorRest"@,
        Opcode::OpGetKeysIterator => "OpGetKeysIterator"@,
        Opcode::OpObjectRest => "OpObjectRest"@,
        Opcode::OpUnaryPlus => "OpUnaryPlus"@,
        Opcode::OpCallSpread => "OpCallSpread"@,
        Opcode::OpNewSpread => "OpNewSpread"@,
        Opcode::OpSetLocalPropertyPop => "OpSetLocalPropertyPop"@,
        Opcode::OpSetGlobalPropertyPop => "OpSetGlobalPropertyPop"@,
        Opcode::OpIncrementLocal => "OpIncrementLocal"@,
        Opcode::OpTestLocalLtConstJump => "OpTestLocalLtConstJump"@,
        Opcode::OpTestLocalLeConstJump => "OpTestLocalLeConstJump"@,
        Opcode::OpIncrementGlobal => "OpIncrementGlobal"@,
        Opcode::OpTestGlobalLtConstJump => "OpTestGlobalLtConstJump"@,
        Opcode::OpTestGlobalLeConstJump => "OpTestGlobalLeConstJump"@,
        Opcode::OpAccumulateGlobal => "OpAccumulateGlobal"@,
        Opcode::OpIncrementGlobalAndJump => "OpIncrementGlobalAndJump"@,
        Opcode::OpCallGlobal => "OpCallGlobal"@,
        Opcode::OpModGlobalConstStrictEqConstJump => "OpModGlobalConstStrictEqConstJump"@,
        Opcode::OpAddConstToGlobalProperty => "OpAddConstToGlobalProperty"@,
        Opcode::OpAddGlobalPropsToGlobalProp => "OpAddGlobalPropsToGlobalProp"@,
        Opcode::OpDefineAccessor => "OpDefineAccessor"@,
        Opcode::OpInitClass => "OpInitClass"@,
        Opcode::OpNewTarget => "OpNewTarget"@,
        Opcode::OpImportMeta => "OpImportMeta"@,
        Opcode::OpYield => "OpYield"@,
        Opcode::OpHalt => "OpHalt"@,
    }
}

/// The operand widths of an opcode, in encoding order.
pub open spec fn widths_of(op: Opcode) -> Seq<usize> {
    match op {
        Opcode::OpCall
        | Opcode::OpNew => seq![1usize],
        Opcode::OpConstant
        | Opcode::OpJumpNotTruthy
        | Opcode::OpJump
        | Opcode::OpGetGlobal
        | Opcode::OpSetGlobal
        | Opcode::OpGetLocal
        | Opcode::OpSetLocal
        | Opcode::OpArray
        | Opcode::OpHash
        | Opcode::OpObjectRest => seq![2usize],
        Opcode::OpGetProperty
        | Opcode::OpIncrementLocal
        | Opcode::OpIncrementGlobal
        | Opcode::OpAccumulateGlobal
        | Opcode::OpCallGlobal
        | Opcode::OpDefineAccessor => seq![2usize, 2usize],
        Opcode::OpGetLocalProperty
        | Opcode::OpGetGlobalProperty
        | Opcode::OpSetLocalProperty
        | Opcode::OpSetGlobalProperty
        | Opcode::OpSetLocalPropertyPop
        | Opcode::OpSetGlobalPropertyPop
        | Opcode::OpTestLocalLtConstJump
        | Opcode::OpTestLocalLeConstJump
        | Opcode::OpTestGlobalLtConstJump
        | Opcode::OpTestGlobalLeConstJump
        | Opcode::OpIncrementGlobalAndJump => seq![2usize, 2usize, 2usize],
        Opcode::OpModGlobalConstStrictEqConstJump
        | Opcode::OpAddConstToGlobalProperty => seq![2usize, 2usize, 2usize, 2usize],
        Opcode::OpAddGlobalPropsToGlobalProp => seq![2usize, 2usize, 2usize, 2usize, 2usize, 2usize, 2usize],
        _ => Seq::empty(),
    }
}

/// Number of bytes taken by the first `n` operands of a layout.
pub open spec fn widths_total(widths: Seq<usize>, n: int) -> nat
    decreases n,
{
    if n <= 0 {
        0
    } else {
        widths_total(widths, n - 1) + widths[n - 1] as nat
    }
}

/// The bytes of one operand: big-endian for width 2, the low byte for width 1.
pub open spec fn operand_field(width: usize, operand: u16) -> Seq<u8> {
    if width == 2 {
        seq![(operand / 256) as u8, (operand % 256) as u8]
    } else if width == 1 {
        seq![(operand % 256) as u8]
    } else {
        Seq::new(width as nat, |i: int| 0u8)
    }
}

/// The operand at position `i`; operands that were not given count as zero.
pub open spec fn operand_at(operands: Seq<u16>, i: int) -> u16 {
    if 0 <= i < operands.len() {
        operands[i]
    } else {
        0
    }
}

/// The bytes of the first `n` operands of a layout.
pub open spec fn operand_bytes_of(widths: Seq<usize>, operands: Seq<u16>, n: int) -> Seq<u8>
    decreases n,
{
    if n <= 0 {
        Seq::empty()
    } else {
        operand_bytes_of(widths, operands, n - 1) + operand_field(
            widths[n - 1],
            operand_at(operands, n - 1),
        )
    }
}

/// The encoding of one instruction: the opcode byte, then its operands.
pub open spec fn encode(op: Opcode, operands: Seq<u16>) -> Seq<u8> {
    seq![op as u8] + operand_bytes_of(widths_of(op), operands, widths_of(op).len() as int)
}

/// The operand of the given width that is read at `offset`; bytes beyond the
/// end of the input read as a zero operand.
pub open spec fn field_value(width: usize, ins: Seq<u8>, offset: int) -> u16 {
    if width == 2 && offset + 1 < ins.len() {
        (ins[offset] as int * 256 + ins[offset + 1] as int) as u16
    } else if width == 1 && offset < ins.len() {
        ins[offset] as u16
    } else {
        0
    }
}

/// All operands of a layout, read from the start of `ins`.
pub open spec fn decode_operands(widths: Seq<usize>, ins: Seq<u8>) -> Seq<u16> {
    Seq::new(widths.len(), |i: int| field_value(widths[i], ins, widths_total(widths, i) as int))
}

/// Whether an operand list is one that a layout can hold without loss.
pub open spec fn operands_fit(widths: Seq<usize>, operands: Seq<u16>) -> bool {
    &&& operands.len() == widths.len()
    &&& forall|i: int|
        0 <= i < widths.len() ==> (#[trigger] widths[i] == 1 ==> operands[i] < 256)
}

impl Opcode {
    /// The opcode whose byte is `value`, if there is one.
    pub fn from_byte(value: u8) -> (r: Option<Self>)
        ensures
            match r {
                Some(op) => op as u8 == value,
                None => value > Opcode::OpHalt as u8,
            },
    {
        match value {
            0 => Some(Opcode::OpConstant),
            1 => Some(Opcode::OpAdd),
            2 => Some(Opcode::OpSub),
            3 => Some(Opcode::OpMul),
            4 => Some(Opcode::OpDiv),
            5 => Some(Opcode::OpMod),
            6 => Some(Opcode::OpPop),
            7 => Some(Opcode::OpTrue),
            8 => Some(Opcode::OpFalse),
            9 => Some(Opcode::OpNull),
            10 => Some(Opcode::OpUndefined),
            11 => Some(Opcode::OpEqual),
            12 => Some(Opcode::OpNotEqual),
            13 => Some(Opcode::OpGreaterThan),
            14 => Some(Opcode::OpMinus),
            15 => Some(Opcode::OpBang),
            16 => Some(Opcode::OpJumpNotTruthy),
            17 => Some(Opcode::OpJump),
            18 => Some(Opcode::OpGetGlobal),
            19 => Some(Opcode::OpSetGlobal),
            20 => Some(Opcode::OpGetLocal),
            21 => Some(Opcode::OpSetLocal),
            22 => Some(Opcode::OpArray),
            23 => Some(Opcode::OpHash),
            24 => Some(Opcode::OpIndex),
            25 => Some(Opcode::OpCall),
            26 => Some(Opcode::OpReturnValue),
            27 => Some(Opcode::OpReturn),
            28 => Some(Opcode::OpGetProperty),
            29 => Some(Opcode::OpGetLocalProperty),
            30 => Some(Opcode::OpGetGlobalProperty),
            31 => Some(Opcode::OpSetLocalProperty),
            32 => Some(Opcode::OpSetGlobalProperty),
            33 => Some(Opcode::OpAwait),
            34 => Some(Opcode::OpAppendElement),
            35 => Some(Opcode::OpAppendSpread),
            36 => Some(Opcode::OpThrow),
            37 => Some(Opcode::OpSetIndex),
            38 => Some(Opcode::OpNew),
            39 => Some(Opcode::OpSuper),
            40 => Some(Opcode::OpTypeof),
            41 => Some(Opcode::OpPow),
            42 => Some(Opcode::OpIsNullish),
            43 => Some(Opcode::OpStrictEqual),
            44 => Some(Opcode::OpStrictNotEqual),
            45 => Some(Opcode::OpInstanceof),
            46 => Some(Opcode::OpIn),
            47 => Some(Opcode::OpDeleteProperty),
            48 => Some(Opcode::OpUnsignedRightShift),
            49 => Some(Opcode::OpBitwiseAnd),
            50 => Some(Opcode::OpBitwiseOr),
            51 => Some(Opcode::OpBitwiseXor),
            52 => Some(Opcode::OpLeftShift),
            53 => Some(Opcode::OpRightShift),
            54 => Some(Opcode::OpLessThan),
            55 => Some(Opcode::OpLessOrEqual),
            56 => Some(Opcode::OpGreaterOrEqual),
            57 => Some(Opcode::OpIteratorRest),
            58 => Some(Opcode::OpGetKeysIterator),
            59 => Some(Opcode::OpObjectRest),
            60 => Some(Opcode::OpUnaryPlus),
            61 => Some(Opcode::OpCallSpread),
            62 => Some(Opcode::OpNewSpread),
            63 => Some(Opcode::OpSetLocalPropertyPop),
            64 => Some(Opcode::OpSetGlobalPropertyPop),
            65 => Some(Opcode::OpIncrementLocal),
            66 => Some(Opcode::OpTestLocalLtConstJump),
            67 => Some(Opcode::OpTestLocalLeConstJump),
            68 => Some(Opcode::OpIncrementGlobal),
            69 => Some(Opcode::OpTestGlobalLtConstJump),
            70 => Some(Opcode::OpTestGlobalLeConstJump),
            71 => Some(Opcode::OpAccumulateGlobal),
            72 => Some(Opcode::OpIncrementGlobalAndJump),
            73 => Some(Opcode::OpCallGlobal),
            74 => Some(Opcode::OpModGlobalConstStrictEqConstJump),
            75 => Some(Opcode::OpAddConstToGlobalProperty),
            76 => Some(Opcode::OpAddGlobalPropsToGlobalProp),
            77 => Some(Opcode::OpDefineAccessor),
            78 => Some(Opcode::OpInitClass),
            79 => Some(Opcode::OpNewTarget),
            80 => Some(Opcode::OpImportMeta),
            81 => Some(Opcode::OpYield),
            82 => Some(Opcode::OpHalt),
            _ => None,
        }
    }
}

/// The high byte of a 16-bit operand.
pub(crate) fn high_byte(operand: u16) -> (b: u8)
    ensures
        b == (operand / 256) as u8,
{
    assert(((operand >> 8) & 0xff) as u8 == (operand / 256) as u8) by (bit_vector);
    ((operand >> 8) & 0xff) as u8
}

/// The low byte of a 16-bit operand.
pub(crate) fn low_byte(operand: u16) -> (b: u8)
    ensures
        b == (operand % 256) as u8,
{
    assert((operand & 0xff) as u8 == (operand % 256) as u8) by (bit_vector);
    (operand & 0xff) as u8
}

/// A 16-bit operand from its two bytes.
pub(crate) fn join_bytes(high: u8, low: u8) -> (operand: u16)
    ensures
        operand == high as int * 256 + low as int,
{
    assert(((high as u16) << 8u16) | (low as u16) == (high as u16) * 256u16 + (low as u16))
        by (bit_vector);
    ((high as u16) << 8u16) | (low as u16)
}

/// The layout of an opcode.
pub fn lookup(op: Opcode) -> (d: Definition)
    ensures
        d.name@ == op_label(op),
        d.operand_widths@ == widths_of(op),
{
    let operand_widths: &'static [usize] = match op {
        Opcode::OpCall
        | Opcode::OpNew => &[1],
        Opcode::OpConstant
        | Opcode::OpJumpNotTruthy
        | Opcode::OpJump
        | Opcode::OpGetGlobal
        | Opcode::OpSetGlobal
        | Opcode::OpGetLocal
        | Opcode::OpSetLocal
        | Opcode::OpArray
        | Opcode::OpHash
        | Opcode::OpObjectRest => &[2],
        Opcode::OpGetProperty
        | Opcode::OpIncrementLocal
        | Opcode::OpIncrementGlobal
        | Opcode::OpAccumulateGlobal
        | Opcode::OpCallGlobal
        | Opcode::OpDefineAccessor => &[2, 2],
        Opcode::OpGetLocalProperty
        | Opcode::OpGetGlobalProperty
        | Opcode::OpSetLocalProperty
        | Opcode::OpSetGlobalProperty
        | Opcode::OpSetLocalPropertyPop
        | Opcode::OpSetGlobalPropertyPop
        | Opcode::OpTestLocalLtConstJump
        | Opcode::OpTestLocalLeConstJump
        | Opcode::OpTestGlobalLtConstJump
        | Opcode::OpTestGlobalLeConstJump
        | Opcode::OpIncrementGlobalAndJump => &[2, 2, 2],
        Opcode::OpModGlobalConstStrictEqConstJump
        | Opcode::OpAddConstToGlobalProperty => &[2, 2, 2, 2],
        Opcode::OpAddGlobalPropsToGlobalProp => &[2, 2, 2, 2, 2, 2, 2],
        _ => &[],
    };
    assert(operand_widths@ =~= widths_of(op));
    Definition { name: op_name(op), operand_widths }
}

/// The printable name of an opcode.
pub fn op_name(op: Opcode) -> (name: &'static str)
    ensures
        name@ == op_label(op),
{
    match op {
        Opcode::OpConstant => "OpConstant",
        Opcode::OpAdd => "OpAdd",
        Opcode::OpSub => "OpSub",
        Opcode::OpMul => "OpMul",
        Opcode::OpDiv => "OpDiv",
        Opcode::OpMod => "OpMod",
        Opcode::OpPop => "OpPop",
        Opcode::OpTrue => "OpTrue",
        Opcode::OpFalse => "OpFalse",
        Opcode::OpNull => "OpNull",
        Opcode::OpUndefined => "OpUndefined",
        Opcode::OpEqual => "OpEqual",
        Opcode::OpNotEqual => "OpNotEqual",
        Opcode::OpGreaterThan => "OpGreaterThan",
        Opcode::OpMinus => "OpMinus",
        Opcode::OpBang => "OpBang",
        Opcode::OpJumpNotTruthy => "OpJumpNotTruthy",
        Opcode::OpJump => "OpJump",
        Opcode::OpGetGlobal => "OpGetGlobal",
        Opcode::OpSetGlobal => "OpSetGlobal",
        Opcode::OpGetLocal => "OpGetLocal",
        Opcode::OpSetLocal => "OpSetLocal",
        Opcode::OpArray => "OpArray",
        Opcode::OpHash => "OpHash",
        Opcode::OpIndex => "OpIndex",
        Opcode::OpCall => "OpCall",
        Opcode::OpReturnValue => "OpReturnValue",
        Opcode::OpReturn => "OpReturn",
        Opcode::OpGetProperty => "OpGetProperty",
        Opcode::OpGetLocalProperty => "OpGetLocalProperty",
        Opcode::OpGetGlobalProperty => "OpGetGlobalProperty",
        Opcode::OpSetLocalProperty => "OpSetLocalProperty",
        Opcode::OpSetGlobalProperty => "OpSetGlobalProperty",
        Opcode::OpAwait => "OpAwait",
        Opcode::OpAppendElement => "OpAppendElement",
        Opcode::OpAppendSpread => "OpAppendSpread",
        Opcode::OpThrow => "OpThrow",
        Opcode::OpSetIndex => "OpSetIndex",
        Opcode::OpNew => "OpNew",
        Opcode::OpSuper => "OpSuper",
        Opcode::OpTypeof => "OpTypeof",
        Opcode::OpPow => "OpPow",
        Opcode::OpIsNullish => "OpIsNullish",
        Opcode::OpStrictEqual => "OpStrictEqual",
        Opcode::OpStrictNotEqual => "OpStrictNotEqual",
        Opcode::OpInstanceof => "OpInstanceof",
        Opcode::OpIn => "OpIn",
        Opcode::OpDeleteProperty => "OpDeleteProperty",
        Opcode::OpUnsignedRightShift => "OpUnsignedRightShift",
        Opcode::OpBitwiseAnd => "OpBitwiseAnd",
        Opcode::OpBitwiseOr => "OpBitwiseOr",
        Opcode::OpBitwiseXor => "OpBitwiseXor",
        Opcode::OpLeftShift => "OpLeftShift",
        Opcode::OpRightShift => "OpRightShift",
        Opcode::OpLessThan => "OpLessThan",
        Opcode::OpLessOrEqual => "OpLessOrEqual",
        Opcode::OpGreaterOrEqual => "OpGreaterOrEqual",
        Opcode::OpIteratorRest => "OpIteratorRest",
        Opcode::OpGetKeysIterator => "OpGetKeysIterator",
        Opcode::OpObjectRest => "OpObjectRest",
        Opcode::OpUnaryPlus => "OpUnaryPlus",
        Opcode::OpCallSpread => "OpCallSpread",
        Opcode::OpNewSpread => "OpNewSpread",
        Opcode::OpSetLocalPropertyPop => "OpSetLocalPropertyPop",
        Opcode::OpSetGlobalPropertyPop => "OpSetGlobalPropertyPop",
        Opcode::OpIncrementLocal => "OpIncrementLocal",
        Opcode::OpTestLocalLtConstJump => "OpTestLocalLtConstJump",
        Opcode::OpTestLocalLeConstJump => "OpTestLocalLeConstJump",
        Opcode::OpIncrementGlobal => "OpIncrementGlobal",
        Opcode::OpTestGlobalLtConstJump => "OpTestGlobalLtConstJump",
        Opcode::OpTestGlobalLeConstJump => "OpTestGlobalLeConstJump",
        Opcode::OpAccumulateGlobal => "OpAccumulateGlobal",
        Opcode::OpIncrementGlobalAndJump => "OpIncrementGlobalAndJump",
        Opcode::OpCallGlobal => "OpCallGlobal",
        Opcode::OpModGlobalConstStrictEqConstJump => "OpModGlobalConstStrictEqConstJump",
        Opcode::OpAddConstToGlobalProperty => "OpAddConstToGlobalProperty",
        Opcode::OpAddGlobalPropsToGlobalProp => "OpAddGlobalPropsToGlobalProp",
        Opcode::OpDefineAccessor => "OpDefineAccessor",
        Opcode::OpInitClass => "OpInitClass",
        Opcode::OpNewTarget => "OpNewTarget",
        Opcode::OpImportMeta => "OpImportMeta",
        Opcode::OpYield => "OpYield",
        Opcode::OpHalt => "OpHalt",
    }
}

/// Encode one instruction. Operands beyond the opcode's layout are ignored and
/// operands that are missing are encoded as zero.
pub fn make(op: Opcode, operands: &[u16]) -> (out: Vec<u8>)
    ensures
        out@ == encode(op, operands@),
{
    let widths = lookup(op).operand_widths;
    let mut out: Vec<u8> = Vec::new();
    out.push(op as u8);
    let mut i: usize = 0;
    while i < widths.len()
        invariant
            widths@ == widths_of(op),
            0 <= i <= widths@.len(),
            out@ =~= seq![op as u8] + operand_bytes_of(widths@, operands@, i as int),
        decreases widths@.len() - i,
    {
        let operand: u16 = if i < operands.len() {
            operands[i]
        } else {
            0
        };
        if widths[i] == 2 {
            out.push(high_byte(operand));
            out.push(low_byte(operand));
        } else {
            out.push(low_byte(operand));
        }
        i += 1;
    }
    out
}

/// Read the operands of a layout from the bytes that follow an opcode. Returns
/// the operands and the number of bytes that the layout takes.
pub fn read_operands(def: &Definition, ins: &[u8]) -> (r: (Vec<u16>, usize))
    requires
        widths_total(def.operand_widths@, def.operand_widths@.len() as int) <= usize::MAX,
    ensures
        r.0@ == decode_operands(def.operand_widths@, ins@),
        r.1 == widths_total(def.operand_widths@, def.operand_widths@.len() as int),
{
    let widths = def.operand_widths;
    let mut operands: Vec<u16> = Vec::new();
    let mut offset: usize = 0;
    let mut i: usize = 0;
    while i < widths.len()
        invariant
            widths@ == def.operand_widths@,
            0 <= i <= widths@.len(),
            widths_total(widths@, widths@.len() as int) <= usize::MAX,
            offset == widths_total(widths@, i as int),
            operands@.len() == i,
            forall|j: int|
                0 <= j < i ==> #[trigger] operands@[j] == decode_operands(widths@, ins@)[j],
        decreases widths@.len() - i,
    {
        proof {
            lemma_widths_total_monotonic(widths@, i as int + 1, widths@.len() as int);
        }
        let width: usize = widths[i];
        let mut operand: u16 = 0;
        if width == 2 {
            if offset + 1 < ins.len() {
                operand = join_bytes(ins[offset], ins[offset + 1]);
            }
        } else if width == 1 {
            if offset < ins.len() {
                operand = ins[offset] as u16;
            }
        }
        operands.push(operand);
        offset += width;
        i += 1;
    }
    assert(operands@ =~= decode_operands(widths@, ins@));
    (operands, offset)
}

proof fn lemma_widths_total_monotonic(widths: Seq<usize>, m: int, n: int)
    requires
        0 <= m <= n <= widths.len(),
    ensures
        widths_total(widths, m) <= widths_total(widths, n),
    decreases n - m,
{
    if m < n {
        lemma_widths_total_monotonic(widths, m, n - 1);
    }
}

/// Every operand of every layout is one or two bytes wide.
pub proof fn law_widths_are_one_or_two(op: Opcode)
    ensures
        forall|i: int|
            0 <= i < widths_of(op).len() ==> (#[trigger] widths_of(op)[i] == 1 || widths_of(op)[i]
                == 2),
{
}

proof fn lemma_operand_bytes_len(widths: Seq<usize>, operands: Seq<u16>, n: int)
    requires
        0 <= n <= widths.len(),
    ensures
        operand_bytes_of(widths, operands, n).len() == widths_total(widths, n),
    decreases n,
{
    if n > 0 {
        lemma_operand_bytes_len(widths, operands, n - 1);
    }
}

/// An instruction is as long as its opcode byte and its operand widths say,
/// whatever its operands are.
pub proof fn law_encode_length(op: Opcode, operands: Seq<u16>)
    ensures
        encode(op, operands).len() == 1 + widths_total(widths_of(op), widths_of(op).len() as int),
        encode(op, operands)[0] == op as u8,
{
    lemma_operand_bytes_len(widths_of(op), operands, widths_of(op).len() as int);
}

proof fn lemma_field_at(widths: Seq<usize>, operands: Seq<u16>, n: int, i: int)
    requires
        0 <= i < n <= widths.len(),
        forall|k: int| 0 <= k < widths.len() ==> (#[trigger] widths[k] == 1 || widths[k] == 2),
    ensures
        operand_bytes_of(widths, operands, n).subrange(
            widths_total(widths, i) as int,
            widths_total(widths, i + 1) as int,
        ) == operand_field(widths[i], operand_at(operands, i)),
        widths_total(widths, i + 1) <= operand_bytes_of(widths, operands, n).len(),
    decreases n,
{
    lemma_operand_bytes_len(widths, operands, n);
    lemma_operand_bytes_len(widths, operands, n - 1);
    lemma_widths_total_monotonic(widths, i + 1, n);
    let all = operand_bytes_of(widths, operands, n);
    let init = operand_bytes_of(widths, operands, n - 1);
    let lo = widths_total(widths, i) as int;
    let hi = widths_total(widths, i + 1) as int;
    if i == n - 1 {
        assert(all.subrange(lo, hi) =~= operand_field(widths[i], operand_at(operands, i)));
    } else {
        lemma_field_at(widths, operands, n - 1, i);
        assert(all.subrange(lo, hi) =~= init.subrange(lo, hi));
    }
}

/// Reading the operands of an encoded instruction gives back the operands that
/// were encoded, and the byte count that was written.
pub proof fn law_operands_round_trip(op: Opcode, operands: Seq<u16>)
    requires
        operands_fit(widths_of(op), operands),
    ensures
        decode_operands(widths_of(op), encode(op, operands).skip(1)) == operands,
        encode(op, operands).skip(1).len() == widths_total(
            widths_of(op),
            widths_of(op).len() as int,
        ),
{
    let w = widths_of(op);
    let n = w.len() as int;
    let body = operand_bytes_of(w, operands, n);
    law_widths_are_one_or_two(op);
    lemma_operand_bytes_len(w, operands, n);
    assert(encode(op, operands).skip(1) =~= body);
    assert forall|i: int| 0 <= i < n implies #[trigger] decode_operands(w, body)[i]
        == operands[i] by {
        lemma_field_at(w, operands, n, i);
        let lo = widths_total(w, i) as int;
        let field = body.subrange(lo, widths_total(w, i + 1) as int);
        assert(widths_total(w, i + 1) == lo + w[i]);
        assert(field[0] == body[lo]);
        if w[i] == 2 {
            assert(field[1] == body[lo + 1]);
        }
    }
    assert(decode_operands(w, body) =~= operands);
}

/// Opcodes and the bytes up to the last opcode stand in one-to-one
/// correspondence.
pub proof fn law_opcode_bytes_distinct(a: Opcode, b: Opcode)
    ensures
        (a as u8 == b as u8) == (a == b),
        a as u8 <= Opcode::OpHalt as u8,
{
}

/// A character of a text as a number, or zero past its end.
spec fn code_at(s: Seq<char>, i: int) -> int {
    if i < s.len() {
        s[i] as int
    } else {
        0
    }
}

/// A number by which the names of opcodes can be told apart.
spec fn name_number(s: Seq<char>) -> int {
    s.len() + 12 * code_at(s, 2) + 11 * code_at(s, 4) + 9 * code_at(s, 9) + 1 * code_at(s, 12)
        + 8 * code_at(s, 13)
}

/// The number of an opcode's name.
spec fn op_number(op: Opcode) -> int {
    match op {
        Opcode::OpConstant => 3068,
        Opcode::OpAdd => 1885,
        Opcode::OpSub => 2079,
        Opcode::OpMul => 2117,
        Opcode::OpDiv => 2119,
        Opcode::OpMod => 2029,
        Opcode::OpPop => 2197,
        Opcode::OpTrue => 2301,
        Opcode::OpFalse => 2035,
        Opcode::OpNull => 2130,
        Opcode::OpUndefined => 3040,
        Opcode::OpEqual => 2122,
        Opcode::OpNotEqual => 3194,
        Opcode::OpGreaterThan => 2842,
        Opcode::OpMinus => 2141,
        Opcode::OpBang => 2008,
        Opcode::OpJumpNotTruthy => 3806,
        Opcode::OpJump => 2093,
        Opcode::OpGetGlobal => 3012,
        Opcode::OpSetGlobal => 3156,
        Opcode::OpGetLocal => 3110,
        Opcode::OpSetLocal => 3254,
        Opcode::OpArray => 2041,
        Opcode::OpHash => 2135,
        Opcode::OpIndex => 1983,
        Opcode::OpCall => 1998,
        Opcode::OpReturnValue => 3247,
        Opcode::OpReturn => 2268,
        Opcode::OpGetProperty => 3171,
        Opcode::OpGetLocalProperty => 4125,
        Opcode::OpGetGlobalProperty => 4022,
        Opcode::OpSetLocalProperty => 4269,
        Opcode::OpSetGlobalProperty => 4166,
        Opcode::OpAwait => 1854,
        Opcode::OpAppendElement => 3980,
        Opcode::OpAppendSpread => 3931,
        Opcode::OpThrow => 2269,
        Opcode::OpSetIndex => 3362,
        Opcode::OpNew => 2250,
        Opcode::OpSuper => 2235,
        Opcode::OpTypeof => 2248,
        Opcode::OpPow => 2274,
        Opcode::OpIsNullish => 2780,
        Opcode::OpStrictEqual => 3388,
        Opcode::OpStrictNotEqual => 4314,
        Opcode::OpInstanceof => 3062,
        Opcode::OpIn => 880,
        Opcode::OpDeleteProperty => 4059,
        Opcode::OpUnsignedRightShift => 4140,
        Opcode::OpBitwiseAnd => 2665,
        Opcode::OpBitwiseOr => 2790,
        Opcode::OpBitwiseXor => 2872,
        Opcode::OpLeftShift => 2963,
        Opcode::OpRightShift => 3074,
        Opcode::OpLessThan => 3177,
        Opcode::OpLessOrEqual => 3315,
        Opcode::OpGreaterOrEqual => 3739,
        Opcode::OpIteratorRest => 4070,
        Opcode::OpGetKeysIterator => 3692,
        Opcode::OpObjectRest => 3035,
        Opcode::OpUnaryPlus => 3151,
        Opcode::OpCallSpread => 2913,
        Opcode::OpNewSpread => 3129,
        Opcode::OpSetLocalPropertyPop => 4272,
        Opcode::OpSetGlobalPropertyPop => 4169,
        Opcode::OpIncrementLocal => 3874,
        Opcode::OpTestLocalLtConstJump => 3820,
        Opcode::OpTestLocalLeConstJump => 3805,
        Opcode::OpIncrementGlobal => 3968,
        Opcode::OpTestGlobalLtConstJump => 4182,
        Opcode::OpTestGlobalLeConstJump => 4062,
        Opcode::OpAccumulateGlobal => 3695,
        Opcode::OpIncrementGlobalAndJump => 3975,
        Opcode::OpCallGlobal => 2886,
        Opcode::OpModGlobalConstStrictEqConstJump => 3921,
        Opcode::OpAddConstToGlobalProperty => 3885,
        Opcode::OpAddGlobalPropsToGlobalProp => 3783,
        Opcode::OpDefineAccessor => 3880,
        Opcode::OpInitClass => 3077,
        Opcode::OpNewTarget => 3165,
        Opcode::OpImportMeta => 3029,
        Opcode::OpYield => 2186,
        Opcode::OpHalt => 2058,
    }
}

proof fn lemma_name_number(op: Opcode)
    ensures
        name_number(op_label(op)) == op_number(op),
{
    match op {
        Opcode::OpConstant => reveal_strlit("OpConstant"),
        Opcode::OpAdd => reveal_strlit("OpAdd"),
        Opcode::OpSub => reveal_strlit("OpSub"),
        Opcode::OpMul => reveal_strlit("OpMul"),
        Opcode::OpDiv => reveal_strlit("OpDiv"),
        Opcode::OpMod => reveal_strlit("OpMod"),
        Opcode::OpPop => reveal_strlit("OpPop"),
        Opcode::OpTrue => reveal_strlit("OpTrue"),
        Opcode::OpFalse => reveal_strlit("OpFalse"),
        Opcode::OpNull => reveal_strlit("OpNull"),
        Opcode::OpUndefined => reveal_strlit("OpUndefined"),
        Opcode::OpEqual => reveal_strlit("OpEqual"),
        Opcode::OpNotEqual => reveal_strlit("OpNotEqual"),
        Opcode::OpGreaterThan => reveal_strlit("OpGreaterThan"),
        Opcode::OpMinus => reveal_strlit("OpMinus"),
        Opcode::OpBang => reveal_strlit("OpBang"),
        Opcode::OpJumpNotTruthy => reveal_strlit("OpJumpNotTruthy"),
        Opcode::OpJump => reveal_strlit("OpJump"),
        Opcode::OpGetGlobal => reveal_strlit("OpGetGlobal"),
        Opcode::OpSetGlobal => reveal_strlit("OpSetGlobal"),
        Opcode::OpGetLocal => reveal_strlit("OpGetLocal"),
        Opcode::OpSetLocal => reveal_strlit("OpSetLocal"),
        Opcode::OpArray => reveal_strlit("OpArray"),
        Opcode::OpHash => reveal_strlit("OpHash"),
        Opcode::OpIndex => reveal_strlit("OpIndex"),
        Opcode::OpCall => reveal_strlit("OpCall"),
        Opcode::OpReturnValue => reveal_strlit("OpReturnValue"),
        Opcode::OpReturn => reveal_strlit("OpReturn"),
        Opcode::OpGetProperty => reveal_strlit("OpGetProperty"),
        Opcode::OpGetLocalProperty => reveal_strlit("OpGetLocalProperty"),
        Opcode::OpGetGlobalProperty => reveal_strlit("OpGetGlobalProperty"),
        Opcode::OpSetLocalProperty => reveal_strlit("OpSetLocalProperty"),
        Opcode::OpSetGlobalProperty => reveal_strlit("OpSetGlobalProperty"),
        Opcode::OpAwait => reveal_strlit("OpAwait"),
        Opcode::OpAppendElement => reveal_strlit("OpAppendElement"),
        Opcode::OpAppendSpread => reveal_strlit("OpAppendSpread"),
        Opcode::OpThrow => reveal_strlit("OpThrow"),
        Opcode::OpSetIndex => reveal_strlit("OpSetIndex"),
        Opcode::OpNew => reveal_strlit("OpNew"),
        Opcode::OpSuper => reveal_strlit("OpSuper"),
        Opcode::OpTypeof => reveal_strlit("OpTypeof"),
        Opcode::OpPow => reveal_strlit("OpPow"),
        Opcode::OpIsNullish => reveal_strlit("OpIsNullish"),
        Opcode::OpStrictEqual => reveal_strlit("OpStrictEqual"),
        Opcode::OpStrictNotEqual => reveal_strlit("OpStrictNotEqual"),
        Opcode::OpInstanceof => reveal_strlit("OpInstanceof"),
        Opcode::OpIn => reveal_strlit("OpIn"),
        Opcode::OpDeleteProperty => reveal_strlit("OpDeleteProperty"),
        Opcode::OpUnsignedRightShift => reveal_strlit("OpUnsignedRightShift"),
        Opcode::OpBitwiseAnd => reveal_strlit("OpBitwiseAnd"),
        Opcode::OpBitwiseOr => reveal_strlit("OpBitwiseOr"),
        Opcode::OpBitwiseXor => reveal_strlit("OpBitwiseXor"),
        Opcode::OpLeftShift => reveal_strlit("OpLeftShift"),
        Opcode::OpRightShift => reveal_strlit("OpRightShift"),
        Opcode::OpLessThan => reveal_strlit("OpLessThan"),
        Opcode::OpLessOrEqual => reveal_strlit("OpLessOrEqual"),
        Opcode::OpGreaterOrEqual => reveal_strlit("OpGreaterOrEqual"),
        Opcode::OpIteratorRest => reveal_strlit("OpIteratorRest"),
        Opcode::OpGetKeysIterator => reveal_strlit("OpGetKeysIterator"),
        Opcode::OpObjectRest => reveal_strlit("OpObjectRest"),
        Opcode::OpUnaryPlus => reveal_strlit("OpUnaryPlus"),
        Opcode::OpCallSpread => reveal_strlit("OpCallSpread"),
        Opcode::OpNewSpread => reveal_strlit("OpNewSpread"),
        Opcode::OpSetLocalPropertyPop => reveal_strlit("OpSetLocalPropertyPop"),
        Opcode::OpSetGlobalPropertyPop => reveal_strlit("OpSetGlobalPropertyPop"),
        Opcode::OpIncrementLocal => reveal_strlit("OpIncrementLocal"),
        Opcode::OpTestLocalLtConstJump => reveal_strlit("OpTestLocalLtConstJump"),
        Opcode::OpTestLocalLeConstJump => reveal_strlit("OpTestLocalLeConstJump"),
        Opcode::OpIncrementGlobal => reveal_strlit("OpIncrementGlobal"),
        Opcode::OpTestGlobalLtConstJump => reveal_strlit("OpTestGlobalLtConstJump"),
        Opcode::OpTestGlobalLeConstJump => reveal_strlit("OpTestGlobalLeConstJump"),
        Opcode::OpAccumulateGlobal => reveal_strlit("OpAccumulateGlobal"),
        Opcode::OpIncrementGlobalAndJump => reveal_strlit("OpIncrementGlobalAndJump"),
        Opcode::OpCallGlobal => reveal_strlit("OpCallGlobal"),
        Opcode::OpModGlobalConstStrictEqConstJump => reveal_strlit("OpModGlobalConstStrictEqConstJump"),
        Opcode::OpAddConstToGlobalProperty => reveal_strlit("OpAddConstToGlobalProperty"),
        Opcode::OpAddGlobalPropsToGlobalProp => reveal_strlit("OpAddGlobalPropsToGlobalProp"),
        Opcode::OpDefineAccessor => reveal_strlit("OpDefineAccessor"),
        Opcode::OpInitClass => reveal_strlit("OpInitClass"),
        Opcode::OpNewTarget => reveal_strlit("OpNewTarget"),
        Opcode::OpImportMeta => reveal_strlit("OpImportMeta"),
        Opcode::OpYield => reveal_strlit("OpYield"),
        Opcode::OpHalt => reveal_strlit("OpHalt"),
    }
}

/// Two opcodes with the same name are the same.
pub proof fn law_names_differ(a: Opcode, b: Opcode)
    requires
        op_label(a) == op_label(b),
    ensures
        a == b,
{
    lemma_name_number(a);
    lemma_name_number(b);
}

} // verus!
