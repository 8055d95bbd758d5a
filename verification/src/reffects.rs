//! What the pieces that register code is made of do when they are run.
use vstd::prelude::*;

use crate::object::ObjectView;
use crate::rcode::ROp;
use crate::rcodegen::RView;
use crate::rextend::{
    builds_on, ext_add_int, ext_add_string, ext_copy_reg, ext_emit, ext_global_slot, ext_local_reg,
    ext_mirror, is_extendable, is_stocked, lemma_extends_self,
};
use crate::rmeaning::{
    act, encoded_all, holding, leads, lemma_emit_stands, lemma_int_constant, lemma_leads_one,
    lemma_leads_self, lemma_leads_step, lemma_stands_in, lemma_step, lemma_string_constant, stands,
    step, steps, width_of, Datum, Run,
};

verus! {

/// Whether instructions can count the bytes and the constants of code.
pub open spec fn fits(z: RView) -> bool {
    z.instructions.len() <= 0xffff && z.constants.len() <= 0x1_0000
}

/// Whether code starts with other code, and has its constants.
pub open spec fn begins(c: RView, z: RView) -> bool {
    &&& c.instructions.len() <= z.instructions.len()
    &&& c.constants.len() <= z.constants.len()
    &&& forall|i: int|
        0 <= i < c.instructions.len() ==> z.instructions[i] == #[trigger] c.instructions[i]
    &&& forall|i: int| 0 <= i < c.constants.len() ==> z.constants[i] == #[trigger] c.constants[i]
}

pub proof fn lemma_begins(c: RView, z: RView)
    requires
        builds_on(c, z),
        fits(z),
    ensures
        begins(c, z),
{
    reveal(builds_on);
}

pub proof fn lemma_begins_on(b: RView, c: RView, z: RView)
    requires
        begins(b, c),
        begins(c, z),
    ensures
        begins(b, z),
{
    assert forall|i: int| 0 <= i < b.instructions.len() implies z.instructions[i]
        == #[trigger] b.instructions[i] by {
        assert(c.instructions[i] == b.instructions[i]);
    }
    assert forall|i: int| 0 <= i < b.constants.len() implies z.constants[i]
        == #[trigger] b.constants[i] by {
        assert(c.constants[i] == b.constants[i]);
    }
}

/// An instruction that stands in code stands in what begins with it.
pub proof fn lemma_begin_stands(c: RView, z: RView, p: int, op: ROp, operands: Seq<u16>)
    requires
        stands(c.instructions, p, op, operands),
        begins(c, z),
    ensures
        stands(z.instructions, p, op, operands),
{
    assert(0 <= p && p + width_of(op) <= c.instructions.len()) by {
        reveal(stands);
    }
    assert forall|i: int| p <= i < p + width_of(op) implies #[trigger] c.instructions[i]
        == z.instructions[i] by {}
    lemma_stands_in(c.instructions, z.instructions, p, op, operands);
}

/// Whether a machine runs from where code ended to where it ends now. `z` is what the
/// code became.
pub open spec fn runs(s: RView, t: RView, z: RView, m: Run, n: Run) -> bool {
    &&& m.ip == s.instructions.len()
    &&& n.ip == t.instructions.len()
    &&& leads(z.instructions, z.constants, m, n)
}

/// Whether a machine has only one register set.
pub open spec fn sets(m: Run, n: Run, reg: int, value: Datum) -> bool {
    &&& n.regs[reg] == value
    &&& forall|r: int| r != reg ==> #[trigger] n.regs[r] == m.regs[r]
    &&& n.globals == m.globals
}

/// What a name stands for in a machine.
pub open spec fn known(t: RView, name: Seq<char>, m: Run) -> Datum {
    if t.locals.has(name) {
        m.regs[t.locals.map[name] as int]
    } else {
        m.globals[t.globals.map[name] as int]
    }
}

pub proof fn lemma_leads_on(
    code: Seq<u8>,
    constants: Seq<ObjectView>,
    m: Run,
    n: Run,
    o: Run,
)
    requires
        leads(code, constants, m, n),
        leads(code, constants, n, o),
    ensures
        leads(code, constants, m, o),
{
    let k = choose|k: nat| #[trigger] steps(code, constants, m, k) == Some(n);
    lemma_steps_on(code, constants, m, n, o, k);
}

proof fn lemma_steps_on(
    code: Seq<u8>,
    constants: Seq<ObjectView>,
    m: Run,
    n: Run,
    o: Run,
    k: nat,
)
    requires
        steps(code, constants, m, k) == Some(n),
        leads(code, constants, n, o),
    ensures
        leads(code, constants, m, o),
    decreases k,
{
    if k > 0 {
        let next = step(code, constants, m)->0;
        lemma_steps_on(code, constants, next, n, o, (k - 1) as nat);
        lemma_leads_step(code, constants, m, next, o);
    }
}

/// An instruction that was added is what a machine does that has come there.
pub proof fn lemma_run_emit(s: RView, op: ROp, operands: Seq<u16>, z: RView, m: Run)
    requires
        begins(s.emit(op, operands), z),
        fits(z),
        op != ROp::MakeClosure,
        m.ip == s.instructions.len(),
    ensures
        step(z.instructions, z.constants, m) == act(
            op,
            encoded_all(op, operands),
            s.emit(op, operands).instructions.len() as int,
            z.constants,
            m,
        ),
{
    lemma_emit_stands(s, op, operands);
    lemma_begin_stands(s.emit(op, operands), z, m.ip, op, operands);
    lemma_step(z.instructions, z.constants, m, op, operands);
}

/// A constant stays where it is.
pub proof fn lemma_constant_kept(s: RView, z: RView, idx: u16)
    requires
        begins(s, z),
        idx < s.constants.len(),
    ensures
        z.constants[idx as int] == s.constants[idx as int],
{
}

pub proof fn lemma_fewer(s: RView, z: RView)
    requires
        begins(s, z),
        fits(z),
    ensures
        fits(s),
{
}

/// A load of an integer sets a register to that integer.
pub proof fn law_integer_is_loaded(s: RView, dst: u16, v: i64, z: RView, m: Run)
    requires
        is_stocked(s),
        is_extendable(s),
        begins(s.load_int(dst, v), z),
        fits(z),
        m.ip == s.instructions.len(),
    ensures
        step(z.instructions, z.constants, m) == Some(
            holding(
                m,
                dst as int,
                Datum::Number(v as int),
                s.load_int(dst, v).instructions.len() as int,
            ),
        ),
        is_stocked(s.load_int(dst, v)),
{
    broadcast use {ext_add_int, ext_emit};

    reveal(RView::load_int);
    reveal(RView::load_const);
    let (t, idx) = s.add_int(v);
    lemma_extends_self(s);
    lemma_fewer(s.load_int(dst, v), z);
    assert(t.instructions == s.instructions && is_stocked(t.emit(ROp::LoadConst, seq![dst, idx]))
        && t.constants.len() <= 0x1_0000) by {
        reveal(RView::add_int);
        reveal(RView::add_constant);
        reveal(RView::emit);
        lemma_int_constant(s, v);
    }
    lemma_int_constant(s, v);
    lemma_extends_self_after(s, t);
    lemma_run_emit(t, ROp::LoadConst, seq![dst, idx], z, m);
    lemma_begins(t, t.emit(ROp::LoadConst, seq![dst, idx]));
    lemma_begins_on(t, t.emit(ROp::LoadConst, seq![dst, idx]), z);
    lemma_constant_kept(t, z, idx);
    let x = encoded_all(ROp::LoadConst, seq![dst, idx]);
    assert(x[0] == dst && x[1] == idx);
}

/// A load of a text sets a register to that text.
pub proof fn law_text_is_loaded(s: RView, dst: u16, v: Seq<char>, z: RView, m: Run)
    requires
        is_stocked(s),
        is_extendable(s),
        begins(s.load_string(dst, v), z),
        fits(z),
        m.ip == s.instructions.len(),
    ensures
        step(z.instructions, z.constants, m) == Some(
            holding(
                m,
                dst as int,
                Datum::Text(v),
                s.load_string(dst, v).instructions.len() as int,
            ),
        ),
        is_stocked(s.load_string(dst, v)),
{
    broadcast use {ext_add_string, ext_emit};

    reveal(RView::load_string);
    reveal(RView::load_const);
    let (t, idx) = s.add_string(v);
    lemma_extends_self(s);
    lemma_fewer(s.load_string(dst, v), z);
    assert(t.instructions == s.instructions && is_stocked(t.emit(ROp::LoadConst, seq![dst, idx]))
        && t.constants.len() <= 0x1_0000) by {
        reveal(RView::add_string);
        reveal(RView::add_constant);
        reveal(RView::emit);
        lemma_string_constant(s, v);
    }
    lemma_string_constant(s, v);
    lemma_extends_self_after(s, t);
    lemma_run_emit(t, ROp::LoadConst, seq![dst, idx], z, m);
    lemma_begins(t, t.emit(ROp::LoadConst, seq![dst, idx]));
    lemma_begins_on(t, t.emit(ROp::LoadConst, seq![dst, idx]), z);
    lemma_constant_kept(t, z, idx);
    let x = encoded_all(ROp::LoadConst, seq![dst, idx]);
    assert(x[0] == dst && x[1] == idx);
}

/// What builds on something can be built on.
pub proof fn lemma_extends_self_after(s: RView, t: RView)
    requires
        builds_on(s, t),
    ensures
        builds_on(t, t),
        is_extendable(t),
{
    crate::rextend::lemma_extendable(s, t);
    lemma_extends_self(t);
}

/// A copy sets one register to what is in another.
pub proof fn law_register_is_copied(s: RView, dst: u16, src: u16, z: RView, m: Run) -> (n: Run)
    requires
        begins(s.copy_reg(dst, src), z),
        fits(z),
        m.ip == s.instructions.len(),
    ensures
        runs(s, s.copy_reg(dst, src), z, m, n),
        sets(m, n, dst as int, m.regs[src as int]),
{
    reveal(RView::copy_reg);
    if dst == src {
        lemma_leads_self(z.instructions, z.constants, m);
        m
    } else {
        lemma_run_emit(s, ROp::Move, seq![dst, src], z, m);
        let x = encoded_all(ROp::Move, seq![dst, src]);
        assert(x[0] == dst && x[1] == src);
        let n = holding(
            m,
            dst as int,
            m.regs[src as int],
            s.copy_reg(dst, src).instructions.len() as int,
        );
        lemma_leads_one(z.instructions, z.constants, m, n);
        n
    }
}

/// The global of a local is kept current.
proof fn lemma_mirrored(s: RView, name: Seq<char>, reg: u16, z: RView, m: Run) -> (n: Run)
    requires
        begins(s.mirror(name, reg), z),
        fits(z),
        m.ip == s.instructions.len(),
    ensures
        runs(s, s.mirror(name, reg), z, m, n),
        n.regs == m.regs,
        s.globals.has(name) ==> n.globals[s.globals.map[name] as int] == m.regs[reg as int],
        s.mirror(name, reg).locals == s.locals,
        s.mirror(name, reg).globals == s.globals,
{
    reveal(RView::mirror);
    if s.globals.has(name) {
        let g = s.globals.map[name];
        lemma_emit_stands(s, ROp::SetGlobal, seq![g, reg]);
        lemma_run_emit(s, ROp::SetGlobal, seq![g, reg], z, m);
        let x = encoded_all(ROp::SetGlobal, seq![g, reg]);
        assert(x[0] == g && x[1] == reg);
        let n = Run {
            globals: m.globals.insert(g as int, m.regs[reg as int]),
            ip: s.mirror(name, reg).instructions.len() as int,
            ..m
        };
        lemma_leads_one(z.instructions, z.constants, m, n);
        n
    } else {
        lemma_leads_self(z.instructions, z.constants, m);
        m
    }
}

/// Storing a register in a name lets the name stand for what was in the register. A
/// local that has a global of its own is stored in both.
pub proof fn law_name_is_stored(s: RView, name: Seq<char>, src: u16, z: RView, m: Run) -> (n: Run)
    requires
        is_extendable(s),
        s.is_function_scope || !s.locals.has(name),
        s.store_name(name, src).err is None,
        begins(s.store_name(name, src), z),
        fits(z),
        m.ip == s.instructions.len(),
    ensures
        ({
            let t = s.store_name(name, src);
            &&& runs(s, t, z, m, n)
            &&& t.locals.has(name) || t.globals.has(name)
            &&& known(t, name, n) == m.regs[src as int]
            &&& t.globals.has(name) ==> n.globals[t.globals.map[name] as int]
                == m.regs[src as int]
            &&& forall|r: int|
                !(t.locals.has(name) && r == t.locals.map[name]) ==> #[trigger] n.regs[r]
                    == m.regs[r]
        }),
{
    broadcast use {ext_local_reg, ext_copy_reg, ext_mirror, ext_global_slot, ext_emit};

    reveal(RView::store_name);
    lemma_extends_self(s);
    let t = s.store_name(name, src);
    if s.is_function_scope {
        let (a, r) = s.local_reg(name);
        assert(a.instructions == s.instructions && a.locals.has(name) && a.locals.map[name] == r
            && a.globals == s.globals) by {
            reveal(RView::local_reg);
        }
        let b = a.copy_reg(r, src);
        lemma_extends_self_after(s, b);
        lemma_fewer(t, z);
        lemma_begins(b, t);
        lemma_begins_on(b, t, z);
        let n = law_register_is_copied(a, r, src, z, m);
        assert(b.locals == a.locals && b.globals == a.globals) by {
            reveal(RView::copy_reg);
            reveal(RView::emit);
        }
        let o = lemma_mirrored(b, name, r, z, n);
        lemma_leads_on(z.instructions, z.constants, m, n, o);
        o
    } else {
        reveal(RView::store_global);
        let (a, g) = s.global_slot(name);
        assert(a.instructions == s.instructions && a.locals == s.locals && (a.err is None
            ==> a.globals.has(name) && a.globals.map[name] == g)) by {
            reveal(RView::global_slot);
            reveal(RView::fail);
        }
        lemma_emit_stands(a, ROp::SetGlobal, seq![g, src]);
        lemma_run_emit(a, ROp::SetGlobal, seq![g, src], z, m);
        let x = encoded_all(ROp::SetGlobal, seq![g, src]);
        assert(x[0] == g && x[1] == src);
        let n = Run {
            globals: m.globals.insert(g as int, m.regs[src as int]),
            ip: t.instructions.len() as int,
            ..m
        };
        lemma_leads_one(z.instructions, z.constants, m, n);
        n
    }
}

/// Loading a name that is known sets a register to what it stands for.
pub proof fn law_name_is_loaded(s: RView, name: Seq<char>, dst: u16, z: RView, m: Run) -> (n: Run)
    requires
        s.locals.has(name) || s.globals.has(name),
        begins(s.load_name(name, dst), z),
        fits(z),
        m.ip == s.instructions.len(),
    ensures
        runs(s, s.load_name(name, dst), z, m, n),
        sets(m, n, dst as int, known(s, name, m)),
{
    reveal(RView::load_name);
    if s.locals.has(name) {
        law_register_is_copied(s, dst, s.locals.map[name], z, m)
    } else {
        let g = s.globals.map[name];
        lemma_run_emit(s, ROp::GetGlobal, seq![dst, g], z, m);
        let x = encoded_all(ROp::GetGlobal, seq![dst, g]);
        assert(x[0] == dst && x[1] == g);
        let n = holding(
            m,
            dst as int,
            m.globals[g as int],
            s.load_name(name, dst).instructions.len() as int,
        );
        lemma_leads_one(z.instructions, z.constants, m, n);
        n
    }
}

} // verus!
