//! What register instructions do, so far as values are numbers, texts, truth values,
//! lists and records.
use vstd::arithmetic::power::pow;
use vstd::arithmetic::power2::pow2;
use vstd::prelude::*;

use crate::code::{operand_at, operand_bytes_of, widths_total};
use crate::codegen::patched;
use crate::object::ObjectView;
use crate::rcode::{law_rencode_length, law_rop_bytes_distinct, rencode, rwidths_of, ROp};
use crate::rcodegen::{target_offset, RView};
use crate::rextend::{is_pooled, is_stocked};
use crate::rlayout::{
    has_byte, lemma_encoded_target, lemma_field, lemma_op_at, lemma_operand_inside,
    lemma_same_operand, lemma_short_field, lemma_size, op_at, operand_in, size_at,
};

verus! {

/// A value that a program computes with. `Thing` stands for those of which nothing more
/// is said.
pub enum Datum {
    Undefined,
    Null,
    Bool(bool),
    Number(int),
    Text(Seq<char>),
    List(Seq<Datum>),
    Record(Seq<(Seq<char>, Datum)>),
    Thing(ObjectView),
}

/// The state of a machine that runs register code.
pub struct Run {
    pub regs: Map<int, Datum>,
    pub globals: Map<int, Datum>,
    pub ip: int,
}

/// What a constant stands for.
pub open spec fn datum_of(obj: ObjectView) -> Datum {
    match obj {
        ObjectView::Integer(v) => Datum::Number(v as int),
        ObjectView::Boolean(b) => Datum::Bool(b),
        ObjectView::Null => Datum::Null,
        ObjectView::Undefined => Datum::Undefined,
        ObjectView::String(s) => Datum::Text(s),
        _ => Datum::Thing(obj),
    }
}

/// Whether a floating-point number is neither zero nor not a number.
pub open spec fn float_counts(bits: u64) -> bool {
    let magnitude = bits % 0x8000_0000_0000_0000;
    0 < magnitude <= 0x7ff0_0000_0000_0000
}

pub open spec fn is_truthy(d: Datum) -> bool {
    match d {
        Datum::Undefined | Datum::Null => false,
        Datum::Bool(b) => b,
        Datum::Number(n) => n != 0,
        Datum::Text(t) => t.len() > 0,
        Datum::Thing(ObjectView::Float(bits)) => float_counts(bits),
        _ => true,
    }
}

pub open spec fn is_nullish(d: Datum) -> bool {
    d is Undefined || d is Null
}

/// Whether two values can be told apart by what they hold.
pub open spec fn is_scalar(d: Datum) -> bool {
    d is Undefined || d is Null || d is Bool || d is Number || d is Text
}

/// Whether two values are of one kind.
pub open spec fn same_kind(x: Datum, y: Datum) -> bool {
    ||| x is Undefined && y is Undefined
    ||| x is Null && y is Null
    ||| x is Bool && y is Bool
    ||| x is Number && y is Number
    ||| x is Text && y is Text
}

/// Whether a number fits the width that bit operations work on.
pub open spec fn is_short(n: int) -> bool {
    -0x8000_0000 <= n < 0x8000_0000
}

/// The remainder of a division that rounds toward zero.
pub open spec fn remainder(x: int, y: int) -> int {
    let size = if y < 0 {
        -y
    } else {
        y
    };
    if x < 0 {
        -((-x) % size)
    } else {
        x % size
    }
}

/// The value under a name; a later entry counts.
pub open spec fn lookup(items: Seq<(Seq<char>, Datum)>, name: Seq<char>) -> Option<Datum>
    decreases items.len(),
{
    if items.len() == 0 {
        None
    } else if items.last().0 == name {
        Some(items.last().1)
    } else {
        lookup(items.drop_last(), name)
    }
}

/// The value under a name, which is undefined where there is none.
pub open spec fn field(items: Seq<(Seq<char>, Datum)>, name: Seq<char>) -> Datum {
    match lookup(items, name) {
        Some(d) => d,
        None => Datum::Undefined,
    }
}

/// What an instruction with two operands computes.
pub open spec fn binary(op: ROp, x: Datum, y: Datum) -> Option<Datum> {
    match (x, y) {
        (Datum::Number(a), Datum::Number(b)) => match op {
            ROp::Add => Some(Datum::Number(a + b)),
            ROp::Sub => Some(Datum::Number(a - b)),
            ROp::Mul => Some(Datum::Number(a * b)),
            ROp::Div => if b != 0 && a % b == 0 {
                Some(Datum::Number(a / b))
            } else {
                None
            },
            ROp::Mod => if b != 0 {
                Some(Datum::Number(remainder(a, b)))
            } else {
                None
            },
            ROp::Pow => if b >= 0 {
                Some(Datum::Number(pow(a, b as nat)))
            } else {
                None
            },
            ROp::Equal | ROp::StrictEqual => Some(Datum::Bool(a == b)),
            ROp::NotEqual | ROp::StrictNotEqual => Some(Datum::Bool(a != b)),
            ROp::LessThan => Some(Datum::Bool(a < b)),
            ROp::LessOrEqual => Some(Datum::Bool(a <= b)),
            ROp::GreaterThan => Some(Datum::Bool(a > b)),
            ROp::GreaterOrEqual => Some(Datum::Bool(a >= b)),
            ROp::BitwiseAnd => if is_short(a) && is_short(b) {
                Some(Datum::Number((a as i32 & b as i32) as int))
            } else {
                None
            },
            ROp::BitwiseOr => if is_short(a) && is_short(b) {
                Some(Datum::Number((a as i32 | b as i32) as int))
            } else {
                None
            },
            ROp::BitwiseXor => if is_short(a) && is_short(b) {
                Some(Datum::Number((a as i32 ^ b as i32) as int))
            } else {
                None
            },
            ROp::LeftShift => if is_short(a) && 0 <= b < 32 && is_short(a * pow2(b as nat)) {
                Some(Datum::Number(a * pow2(b as nat)))
            } else {
                None
            },
            ROp::RightShift => if is_short(a) && 0 <= b < 32 {
                Some(Datum::Number(a / pow2(b as nat) as int))
            } else {
                None
            },
            ROp::UnsignedRightShift => if is_short(a) && 0 <= b < 32 {
                Some(Datum::Number((a % 0x1_0000_0000) / pow2(b as nat) as int))
            } else {
                None
            },
            _ => None,
        },
        _ => match op {
            ROp::Add => match (x, y) {
                (Datum::Text(a), Datum::Text(b)) => Some(Datum::Text(a + b)),
                _ => None,
            },
            ROp::StrictEqual => if is_scalar(x) && is_scalar(y) {
                Some(Datum::Bool(x == y))
            } else {
                None
            },
            ROp::StrictNotEqual => if is_scalar(x) && is_scalar(y) {
                Some(Datum::Bool(x != y))
            } else {
                None
            },
            ROp::Equal => if same_kind(x, y) || is_nullish(x) || is_nullish(y) {
                Some(Datum::Bool(x == y || is_nullish(x) && is_nullish(y)))
            } else {
                None
            },
            ROp::NotEqual => if same_kind(x, y) || is_nullish(x) || is_nullish(y) {
                Some(Datum::Bool(!(x == y || is_nullish(x) && is_nullish(y))))
            } else {
                None
            },
            ROp::In => match (x, y) {
                (Datum::Text(name), Datum::Record(items)) => Some(
                    Datum::Bool(lookup(items, name) is Some),
                ),
                _ => None,
            },
            _ => None,
        },
    }
}

/// The name of the kind of a value.
pub open spec fn kind_name(d: Datum) -> Seq<char> {
    match d {
        Datum::Undefined => "undefined"@,
        Datum::Bool(_) => "boolean"@,
        Datum::Number(_) | Datum::Thing(ObjectView::Float(_)) => "number"@,
        Datum::Text(_) => "string"@,
        Datum::Thing(ObjectView::Function(_))
        | Datum::Thing(ObjectView::Class(_))
        | Datum::Thing(ObjectView::Builtin(..))
        | Datum::Thing(ObjectView::BoundMethod(..)) => "function"@,
        _ => "object"@,
    }
}

/// What an instruction with one operand computes.
pub open spec fn unary(op: ROp, x: Datum) -> Option<Datum> {
    match op {
        ROp::Neg => match x {
            Datum::Number(n) => Some(Datum::Number(-n)),
            _ => None,
        },
        ROp::Not => Some(Datum::Bool(!is_truthy(x))),
        ROp::UnaryPlus => match x {
            Datum::Number(n) => Some(Datum::Number(n)),
            Datum::Bool(b) => Some(
                Datum::Number(
                    if b {
                        1
                    } else {
                        0
                    },
                ),
            ),
            _ => None,
        },
        ROp::Typeof => Some(Datum::Text(kind_name(x))),
        ROp::IsNullish => Some(Datum::Bool(is_nullish(x))),
        _ => None,
    }
}

/// An element of a list or a record.
pub open spec fn element(x: Datum, key: Datum) -> Option<Datum> {
    match (x, key) {
        (Datum::List(items), Datum::Number(i)) => Some(
            if 0 <= i < items.len() {
                items[i]
            } else {
                Datum::Undefined
            },
        ),
        (Datum::Record(items), Datum::Text(name)) => Some(field(items, name)),
        _ => None,
    }
}

/// A named property of a value.
pub open spec fn property(x: Datum, name: Seq<char>) -> Option<Datum> {
    match x {
        Datum::List(items) => if name == "length"@ {
            Some(Datum::Number(items.len() as int))
        } else {
            None
        },
        Datum::Record(items) => Some(field(items, name)),
        _ => None,
    }
}

/// A list or a record with an element set.
pub open spec fn with_element(x: Datum, key: Datum, value: Datum) -> Option<Datum> {
    match (x, key) {
        (Datum::List(items), Datum::Number(i)) => if 0 <= i < items.len() {
            Some(Datum::List(items.update(i, value)))
        } else {
            None
        },
        (Datum::Record(items), Datum::Text(name)) => Some(Datum::Record(items.push((name, value)))),
        _ => None,
    }
}

/// The values in registers, one after the other.
pub open spec fn values_from(m: Run, base: int, count: int) -> Seq<Datum> {
    Seq::new(count as nat, |i: int| m.regs[base + i])
}

/// The entries whose keys and values are in registers by turns.
pub open spec fn entries_from(m: Run, base: int, count: int) -> Seq<(Seq<char>, Datum)> {
    Seq::new(
        (count / 2) as nat,
        |i: int| (m.regs[base + 2 * i]->Text_0, m.regs[base + 2 * i + 1]),
    )
}

/// Whether the keys of those entries are texts.
pub open spec fn keys_are_texts(m: Run, base: int, count: int) -> bool {
    forall|i: int| 0 <= i < count / 2 ==> (#[trigger] m.regs[base + 2 * i]) is Text
}

/// The entries of a record that are not under one of some names.
pub open spec fn others(items: Seq<(Seq<char>, Datum)>, names: Seq<Datum>) -> Seq<
    (Seq<char>, Datum),
> {
    items.filter(|item: (Seq<char>, Datum)| !names.contains(Datum::Text(item.0)))
}

/// The keys of a record.
pub open spec fn keys_of(items: Seq<(Seq<char>, Datum)>) -> Seq<Datum> {
    items.map_values(|item: (Seq<char>, Datum)| Datum::Text(item.0))
}

/// The machine after a register was set.
pub open spec fn holding(m: Run, reg: int, value: Datum, next: int) -> Run {
    Run { regs: m.regs.insert(reg, value), ip: next, ..m }
}

/// The same if there is a value.
pub open spec fn holding_if(m: Run, reg: int, value: Option<Datum>, next: int) -> Option<Run> {
    match value {
        Some(d) => Some(holding(m, reg, d, next)),
        None => None,
    }
}

/// The machine at an instruction.
pub open spec fn at(m: Run, ip: int) -> Run {
    Run { ip, ..m }
}

/// What an instruction does to a machine. `x` holds its operands, and the instruction
/// after it is at `next`. Nothing is said of calls and of what ends a run.
pub open spec fn act(
    op: ROp,
    x: Seq<int>,
    next: int,
    constants: Seq<ObjectView>,
    m: Run,
) -> Option<Run> {
    match op {
        ROp::LoadConst => Some(holding(m, x[0], datum_of(constants[x[1]]), next)),
        ROp::LoadTrue => Some(holding(m, x[0], Datum::Bool(true), next)),
        ROp::LoadFalse => Some(holding(m, x[0], Datum::Bool(false), next)),
        ROp::LoadNull => Some(holding(m, x[0], Datum::Null, next)),
        ROp::LoadUndef => Some(holding(m, x[0], Datum::Undefined, next)),
        ROp::Move => Some(holding(m, x[0], m.regs[x[1]], next)),
        ROp::GetGlobal => Some(holding(m, x[0], m.globals[x[1]], next)),
        ROp::SetGlobal => Some(
            Run { globals: m.globals.insert(x[0], m.regs[x[1]]), ip: next, ..m },
        ),
        ROp::Add
        | ROp::Sub
        | ROp::Mul
        | ROp::Div
        | ROp::Mod
        | ROp::Pow
        | ROp::Equal
        | ROp::NotEqual
        | ROp::StrictEqual
        | ROp::StrictNotEqual
        | ROp::GreaterThan
        | ROp::GreaterOrEqual
        | ROp::LessThan
        | ROp::LessOrEqual
        | ROp::In
        | ROp::BitwiseAnd
        | ROp::BitwiseOr
        | ROp::BitwiseXor
        | ROp::LeftShift
        | ROp::RightShift
        | ROp::UnsignedRightShift => holding_if(
            m,
            x[0],
            binary(op, m.regs[x[1]], m.regs[x[2]]),
            next,
        ),
        ROp::Neg | ROp::Not | ROp::UnaryPlus | ROp::Typeof | ROp::IsNullish => holding_if(
            m,
            x[0],
            unary(op, m.regs[x[1]]),
            next,
        ),
        ROp::Jump => Some(at(m, x[0])),
        ROp::JumpIfNot => Some(
            at(
                m,
                if is_truthy(m.regs[x[0]]) {
                    next
                } else {
                    x[1]
                },
            ),
        ),
        ROp::JumpIfTruthy => Some(
            at(
                m,
                if is_truthy(m.regs[x[0]]) {
                    x[1]
                } else {
                    next
                },
            ),
        ),
        ROp::Array => Some(holding(m, x[0], Datum::List(values_from(m, x[1], x[2])), next)),
        ROp::Hash => if keys_are_texts(m, x[1], x[2]) {
            Some(holding(m, x[0], Datum::Record(entries_from(m, x[1], x[2])), next))
        } else {
            None
        },
        ROp::AppendElement => match m.regs[x[0]] {
            Datum::List(items) => Some(
                holding(m, x[0], Datum::List(items.push(m.regs[x[1]])), next),
            ),
            _ => None,
        },
        ROp::AppendSpread => match (m.regs[x[0]], m.regs[x[1]]) {
            (Datum::List(items), Datum::List(more)) => Some(
                holding(m, x[0], Datum::List(items + more), next),
            ),
            _ => None,
        },
        ROp::GetProp => match datum_of(constants[x[2]]) {
            Datum::Text(name) => holding_if(m, x[0], property(m.regs[x[1]], name), next),
            _ => None,
        },
        ROp::GetGlobalProp => match datum_of(constants[x[2]]) {
            Datum::Text(name) => holding_if(m, x[0], property(m.globals[x[1]], name), next),
            _ => None,
        },
        ROp::SetProp => holding_if(
            m,
            x[0],
            with_element(m.regs[x[0]], datum_of(constants[x[1]]), m.regs[x[2]]),
            next,
        ),
        ROp::SetGlobalProp => match with_element(
            m.globals[x[0]],
            datum_of(constants[x[1]]),
            m.regs[x[2]],
        ) {
            Some(d) => Some(Run { globals: m.globals.insert(x[0], d), ip: next, ..m }),
            None => None,
        },
        ROp::Index => holding_if(m, x[0], element(m.regs[x[1]], m.regs[x[2]]), next),
        ROp::SetIndex => holding_if(
            m,
            x[0],
            with_element(m.regs[x[0]], m.regs[x[1]], m.regs[x[2]]),
            next,
        ),
        ROp::IteratorRest => match m.regs[x[1]] {
            Datum::List(items) => Some(
                holding(
                    m,
                    x[0],
                    Datum::List(
                        if x[2] <= items.len() {
                            items.skip(x[2])
                        } else {
                            Seq::empty()
                        },
                    ),
                    next,
                ),
            ),
            _ => None,
        },
        ROp::GetKeysIter => match m.regs[x[1]] {
            Datum::Record(items) => Some(holding(m, x[0], Datum::List(keys_of(items)), next)),
            _ => None,
        },
        ROp::ObjectRest => match m.regs[x[1]] {
            Datum::Record(items) => Some(
                holding(
                    m,
                    x[0],
                    Datum::Record(others(items, values_from(m, x[2], x[3]))),
                    next,
                ),
            ),
            _ => None,
        },
        ROp::AddRegConst => holding_if(
            m,
            x[0],
            binary(ROp::Add, m.regs[x[1]], datum_of(constants[x[2]])),
            next,
        ),
        ROp::IncrementRegAndJump => holding_if(
            m,
            x[0],
            binary(ROp::Add, m.regs[x[0]], datum_of(constants[x[1]])),
            x[2],
        ),
        ROp::TestLtConstJump => match binary(
            ROp::LessThan,
            m.regs[x[0]],
            datum_of(constants[x[1]]),
        ) {
            Some(d) => Some(
                at(
                    m,
                    if is_truthy(d) {
                        next
                    } else {
                        x[2]
                    },
                ),
            ),
            None => None,
        },
        ROp::TestLeConstJump => match binary(
            ROp::LessOrEqual,
            m.regs[x[0]],
            datum_of(constants[x[1]]),
        ) {
            Some(d) => Some(
                at(
                    m,
                    if is_truthy(d) {
                        next
                    } else {
                        x[2]
                    },
                ),
            ),
            None => None,
        },
        ROp::ModRegConstStrictEqConstJump => match binary(
            ROp::Mod,
            m.regs[x[0]],
            datum_of(constants[x[1]]),
        ) {
            Some(rest) => match binary(ROp::StrictEqual, rest, datum_of(constants[x[2]])) {
                Some(d) => Some(
                    at(
                        m,
                        if is_truthy(d) {
                            next
                        } else {
                            x[3]
                        },
                    ),
                ),
                None => None,
            },
            None => None,
        },
        ROp::AddConstToRegProp => match (m.regs[x[0]], datum_of(constants[x[1]])) {
            (Datum::Record(items), Datum::Text(name)) => match binary(
                ROp::Add,
                field(items, name),
                datum_of(constants[x[2]]),
            ) {
                Some(sum) => Some(holding(m, x[0], Datum::Record(items.push((name, sum))), next)),
                None => None,
            },
            _ => None,
        },
        ROp::AddRegPropsToRegProp => match (
            m.regs[x[0]],
            datum_of(constants[x[1]]),
            datum_of(constants[x[3]]),
            datum_of(constants[x[5]]),
        ) {
            (
                Datum::Record(items),
                Datum::Text(first),
                Datum::Text(second),
                Datum::Text(name),
            ) => match binary(ROp::Add, field(items, first), field(items, second)) {
                Some(sum) => Some(holding(m, x[0], Datum::Record(items.push((name, sum))), next)),
                None => None,
            },
            _ => None,
        },
        _ => None,
    }
}

/// The operands of the instruction at `p`.
pub open spec fn operands_at(code: Seq<u8>, p: int) -> Seq<int> {
    let op = op_at(code, p);
    Seq::new(rwidths_of(op).len(), |k: int| operand_in(code, p, op, k))
}

/// What the instruction that a machine is at does to it.
pub open spec fn step(code: Seq<u8>, constants: Seq<ObjectView>, m: Run) -> Option<Run> {
    act(op_at(code, m.ip), operands_at(code, m.ip), m.ip + size_at(code, m.ip), constants, m)
}

/// What some instructions do to a machine.
pub open spec fn steps(code: Seq<u8>, constants: Seq<ObjectView>, m: Run, n: nat) -> Option<Run>
    decreases n,
{
    if n == 0 {
        Some(m)
    } else {
        match step(code, constants, m) {
            Some(next) => steps(code, constants, next, (n - 1) as nat),
            None => None,
        }
    }
}

/// Whether running code takes a machine from one state to another.
pub open spec fn leads(code: Seq<u8>, constants: Seq<ObjectView>, m: Run, t: Run) -> bool {
    exists|n: nat| #[trigger] steps(code, constants, m, n) == Some(t)
}

/// The value of an operand once it is encoded.
pub open spec fn encoded(width: usize, v: u16) -> int {
    if width == 2 {
        v as int
    } else {
        v as int % 256
    }
}

/// The operands of an instruction once they are encoded.
pub open spec fn encoded_all(op: ROp, operands: Seq<u16>) -> Seq<int> {
    Seq::new(
        rwidths_of(op).len(),
        |k: int| encoded(rwidths_of(op)[k], operand_at(operands, k)),
    )
}

/// The number of bytes that the fixed part of an instruction takes.
pub open spec fn width_of(op: ROp) -> int {
    1 + widths_total(rwidths_of(op), rwidths_of(op).len() as int) as int
}

/// Whether an instruction stands at `p`.
#[verifier::opaque]
pub open spec fn stands(code: Seq<u8>, p: int, op: ROp, operands: Seq<u16>) -> bool {
    &&& 0 <= p
    &&& p + width_of(op) <= code.len()
    &&& has_byte(op, code[p])
    &&& forall|k: int|
        0 <= k < rwidths_of(op).len() ==> #[trigger] operand_in(code, p, op, k) == encoded(
            rwidths_of(op)[k],
            operand_at(operands, k),
        )
}

/// An instruction that stands where a machine is, is what the machine does.
pub proof fn lemma_step(
    code: Seq<u8>,
    constants: Seq<ObjectView>,
    m: Run,
    op: ROp,
    operands: Seq<u16>,
)
    requires
        stands(code, m.ip, op, operands),
        op != ROp::MakeClosure,
    ensures
        step(code, constants, m) == act(
            op,
            encoded_all(op, operands),
            m.ip + width_of(op),
            constants,
            m,
        ),
{
    reveal(stands);
    lemma_op_at(code, m.ip, op);
    lemma_size(code, m.ip, op);
    assert(operands_at(code, m.ip) =~= encoded_all(op, operands));
}

pub proof fn lemma_leads_self(code: Seq<u8>, constants: Seq<ObjectView>, m: Run)
    ensures
        leads(code, constants, m, m),
{
    assert(steps(code, constants, m, 0) == Some(m));
}

pub proof fn lemma_leads_step(code: Seq<u8>, constants: Seq<ObjectView>, m: Run, t: Run, u: Run)
    requires
        step(code, constants, m) == Some(t),
        leads(code, constants, t, u),
    ensures
        leads(code, constants, m, u),
{
    let n = choose|n: nat| #[trigger] steps(code, constants, t, n) == Some(u);
    assert(steps(code, constants, m, n + 1) == Some(u));
}

pub proof fn lemma_leads_one(code: Seq<u8>, constants: Seq<ObjectView>, m: Run, t: Run)
    requires
        step(code, constants, m) == Some(t),
    ensures
        leads(code, constants, m, t),
{
    lemma_leads_self(code, constants, t);
    lemma_leads_step(code, constants, m, t, t);
}

/// An instruction that was added stands there.
pub proof fn lemma_emit_stands(s: RView, op: ROp, operands: Seq<u16>)
    requires
        op != ROp::MakeClosure,
    ensures
        stands(s.emit(op, operands).instructions, s.instructions.len() as int, op, operands),
        s.emit(op, operands).instructions.len() == s.instructions.len() + width_of(op),
        s.emit(op, operands) == (RView {
            instructions: s.emit(op, operands).instructions,
            ..s
        }),
        forall|i: int|
            0 <= i < s.instructions.len() ==> s.emit(op, operands).instructions[i]
                == #[trigger] s.instructions[i],
{
    reveal(RView::emit);
    reveal(stands);
    let code = s.emit(op, operands).instructions;
    let tail = rencode(op, operands);
    let p = s.instructions.len() as int;
    law_rencode_length(op, operands);
    assert(tail.len() == width_of(op));
    let w = rwidths_of(op);
    assert forall|k: int| 0 <= k < w.len() implies #[trigger] operand_in(code, p, op, k) == encoded(
        w[k],
        operand_at(operands, k),
    ) by {
        lemma_operand_inside(op, k);
        let fields = operand_bytes_of(w, operands, w.len() as int);
        let start = widths_total(w, k) as int;
        let v = operand_at(operands, k);
        if w[k] == 2 {
            lemma_field(w, operands, w.len() as int, k);
            assert(v / 256 * 256 + v % 256 == v);
            assert(code[p + 1 + start] == fields[start]);
            assert(code[p + 1 + start + 1] == fields[start + 1]);
        } else {
            lemma_short_field(w, operands, w.len() as int, k);
            assert(code[p + 1 + start] == fields[start]);
        }
    }
}

/// An instruction stands in other code that has the same bytes there.
pub proof fn lemma_stands_in(x: Seq<u8>, y: Seq<u8>, p: int, op: ROp, operands: Seq<u16>)
    requires
        stands(x, p, op, operands),
        p + width_of(op) <= y.len(),
        forall|i: int| p <= i < p + width_of(op) ==> #[trigger] x[i] == y[i],
    ensures
        stands(y, p, op, operands),
{
    reveal(stands);
    assert(x[p] == y[p]);
    assert forall|k: int| 0 <= k < rwidths_of(op).len() implies #[trigger] operand_in(y, p, op, k)
        == encoded(rwidths_of(op)[k], operand_at(operands, k)) by {
        lemma_operand_inside(op, k);
        assert forall|i: int|
            1 + widths_total(rwidths_of(op), k) <= i < 1 + widths_total(rwidths_of(op), k)
                + rwidths_of(op)[k] implies #[trigger] x[p + i] == y[p + i] by {
            let j = p + i;
            assert(x[j] == y[j]);
        }
        lemma_same_operand(x, p, y, p, op, k);
        assert(operand_in(x, p, op, k) == encoded(
            rwidths_of(op)[k],
            operand_at(operands, k),
        ));
    }
}

/// The jump at `p` goes where it was sent.
pub proof fn lemma_patch_stands(s: RView, p: usize, op: ROp, operands: Seq<u16>, target: usize)
    requires
        stands(s.instructions, p as int, op, operands),
        target_offset(op as u8) matches Some(offset) && offset / 2 < operands.len(),
        target <= 0xffff,
    ensures
        stands(
            s.patch(p, target).instructions,
            p as int,
            op,
            operands.update((target_offset(op as u8)->0) / 2, target as u16),
        ),
        s.patch(p, target).instructions.len() == s.instructions.len(),
        s.patch(p, target) == (RView { instructions: s.patch(p, target).instructions, ..s }),
        forall|i: int|
            0 <= i < s.instructions.len() && !(p <= i < p + width_of(op))
                ==> s.patch(p, target).instructions[i] == #[trigger] s.instructions[i],
{
    reveal(stands);
    reveal(RView::patch);
    lemma_encoded_target(op, operands);
    let offset = target_offset(op as u8)->0;
    let x = s.instructions;
    let y = s.patch(p, target).instructions;
    assert(y == patched(x, p + offset, target as u16));
    let w = rwidths_of(op);
    let last = offset / 2;
    law_rop_bytes_distinct(op, ROp::Jump);
    law_rop_bytes_distinct(op, ROp::JumpIfNot);
    law_rop_bytes_distinct(op, ROp::JumpIfTruthy);
    law_rop_bytes_distinct(op, ROp::TestLtConstJump);
    law_rop_bytes_distinct(op, ROp::TestLeConstJump);
    law_rop_bytes_distinct(op, ROp::IncrementRegAndJump);
    law_rop_bytes_distinct(op, ROp::ModRegConstStrictEqConstJump);
    assert(w.len() == last + 1 && forall|k: int| 0 <= k < w.len() ==> w[k] == 2);
    let sent = operands.update(last, target as u16);
    assert forall|k: int| 0 <= k < w.len() implies #[trigger] operand_in(y, p as int, op, k)
        == encoded(w[k], operand_at(sent, k)) by {
        lemma_twos(w, k);
        assert(operand_in(x, p as int, op, k) == encoded(w[k], operand_at(operands, k)));
        if k == last {
            let v = target as u16;
            assert(v / 256 * 256 + v % 256 == v);
        }
    }
}

/// The constant of an integer is that integer.
pub proof fn lemma_int_constant(s: RView, v: i64)
    requires
        is_stocked(s),
        s.add_int(v).0.constants.len() <= 0x1_0000,
    ensures
        s.add_int(v).1 < s.add_int(v).0.constants.len(),
        s.add_int(v).0.constants[s.add_int(v).1 as int] == ObjectView::Integer(v),
        is_stocked(s.add_int(v).0),
{
    reveal(RView::add_int);
    reveal(RView::add_constant);
    reveal(is_pooled);
    if s.int_slots.dom().contains(v as u64) {
        let w = s.constants[s.int_slots[v as u64] as int]->Integer_0;
        assert(v as u64 == w as u64 ==> v == w) by (bit_vector);
    }
}

/// The constant of a text is that text.
pub proof fn lemma_string_constant(s: RView, v: Seq<char>)
    requires
        is_stocked(s),
        s.add_string(v).0.constants.len() <= 0x1_0000,
    ensures
        s.add_string(v).1 < s.add_string(v).0.constants.len(),
        s.add_string(v).0.constants[s.add_string(v).1 as int] == ObjectView::String(v),
        is_stocked(s.add_string(v).0),
{
    reveal(RView::add_string);
    reveal(RView::add_constant);
    reveal(is_pooled);
}

/// The width of operands of two bytes each.
proof fn lemma_twos(w: Seq<usize>, k: int)
    requires
        0 <= k <= w.len(),
        forall|i: int| 0 <= i < w.len() ==> w[i] == 2,
    ensures
        widths_total(w, k) == 2 * k,
    decreases k,
{
    if k > 0 {
        lemma_twos(w, k - 1);
    }
}

} // verus!
