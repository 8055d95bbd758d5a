//! What expressions compute when register code is run.
use vstd::prelude::*;

use crate::ast::Expression;
use crate::codegen::PLACEHOLDER;
use crate::rcode::ROp;
use crate::rcodegen::{compound_rop, infix_rop, RView};
use crate::reffects::{
    begins, fits, law_integer_is_loaded, law_text_is_loaded, lemma_begin_stands, lemma_begins_on,
    lemma_extends_self_after, lemma_fewer, lemma_run_emit,
};
use crate::rextend::{
    builds_on, ext_add_int, ext_emit, ext_load_const, ext_take_temp, extension_is_extendable,
    is_extendable, is_stocked, lemma_extends_self,
};
use crate::rextend_expressions::extends_expr;
use crate::rmeaning::{
    at, element, encoded_all, holding, is_nullish, is_short, is_truthy, kind_name, leads,
    lemma_emit_stands, lemma_int_constant, lemma_leads_one, lemma_leads_step, lemma_patch_stands,
    lemma_step, step, Datum, Run,
};
use crate::rpatches::lemma_patch_other;
use crate::rrules::{expr_rrule, rgen_expr, rgen_expr_into, rgen_prefix, test_nullish};

verus! {

/// Whether an operator has a compound assignment that evaluates both of its operands.
pub open spec fn has_assignment(operator: Seq<char>) -> bool {
    ||| operator == "+"@
    ||| operator == "-"@
    ||| operator == "*"@
    ||| operator == "/"@
    ||| operator == "%"@
    ||| operator == "**"@
    ||| operator == "&"@
    ||| operator == "|"@
    ||| operator == "^"@
    ||| operator == "<<"@
    ||| operator == ">>"@
    ||| operator == ">>>"@
}

/// A compound assignment applies the operator that it is written with.
pub proof fn law_compound_applies_operator(operator: Seq<char>)
    requires
        has_assignment(operator),
    ensures
        compound_rop(operator + "="@) == infix_rop(operator),
        infix_rop(operator) is Some,
{
    reveal(compound_rop);
    reveal(infix_rop);
    reveal_strlit("+");
    reveal_strlit("-");
    reveal_strlit("*");
    reveal_strlit("/");
    reveal_strlit("%");
    reveal_strlit("**");
    reveal_strlit("&");
    reveal_strlit("|");
    reveal_strlit("^");
    reveal_strlit("<<");
    reveal_strlit(">>");
    reveal_strlit(">>>");
    reveal_strlit("=");
    reveal_strlit("+=");
    reveal_strlit("-=");
    reveal_strlit("*=");
    reveal_strlit("/=");
    reveal_strlit("%=");
    reveal_strlit("**=");
    reveal_strlit("&=");
    reveal_strlit("|=");
    reveal_strlit("^=");
    reveal_strlit("<<=");
    reveal_strlit(">>=");
    reveal_strlit(">>>=");
    assert("+"@.len() == 1 && "+"@[0] == '+');
    assert("-"@.len() == 1 && "-"@[0] == '-');
    assert("*"@.len() == 1 && "*"@[0] == '*');
    assert("/"@.len() == 1 && "/"@[0] == '/');
    assert("%"@.len() == 1 && "%"@[0] == '%');
    assert("**"@.len() == 2 && "**"@[0] == '*' && "**"@[1] == '*');
    assert("&"@.len() == 1 && "&"@[0] == '&');
    assert("|"@.len() == 1 && "|"@[0] == '|');
    assert("^"@.len() == 1 && "^"@[0] == '^');
    assert("<<"@.len() == 2 && "<<"@[0] == '<' && "<<"@[1] == '<');
    assert(">>"@.len() == 2 && ">>"@[0] == '>' && ">>"@[1] == '>');
    assert(">>>"@.len() == 3 && ">>>"@[0] == '>' && ">>>"@[1] == '>' && ">>>"@[2] == '>');
    assert("="@.len() == 1 && "="@[0] == '=');
    assert("+="@.len() == 2 && "+="@[0] == '+' && "+="@[1] == '=');
    assert("-="@.len() == 2 && "-="@[0] == '-' && "-="@[1] == '=');
    assert("*="@.len() == 2 && "*="@[0] == '*' && "*="@[1] == '=');
    assert("/="@.len() == 2 && "/="@[0] == '/' && "/="@[1] == '=');
    assert("%="@.len() == 2 && "%="@[0] == '%' && "%="@[1] == '=');
    assert("**="@.len() == 3 && "**="@[0] == '*' && "**="@[1] == '*' && "**="@[2] == '=');
    assert("&="@.len() == 2 && "&="@[0] == '&' && "&="@[1] == '=');
    assert("|="@.len() == 2 && "|="@[0] == '|' && "|="@[1] == '=');
    assert("^="@.len() == 2 && "^="@[0] == '^' && "^="@[1] == '=');
    assert("<<="@.len() == 3 && "<<="@[0] == '<' && "<<="@[1] == '<' && "<<="@[2] == '=');
    assert(">>="@.len() == 3 && ">>="@[0] == '>' && ">>="@[1] == '>' && ">>="@[2] == '=');
    assert(">>>="@.len() == 4 && ">>>="@[0] == '>' && ">>>="@[1] == '>' && ">>>="@[2] == '>' && ">>>="@[3] == '=');
    reveal_strlit("==");
    assert("=="@.len() == 2 && "=="@[0] == '=' && "=="@[1] == '=');
    reveal_strlit("!=");
    assert("!="@.len() == 2 && "!="@[0] == '!' && "!="@[1] == '=');
    reveal_strlit("===");
    assert("==="@.len() == 3 && "==="@[0] == '=' && "==="@[1] == '=' && "==="@[2] == '=');
    reveal_strlit("!==");
    assert("!=="@.len() == 3 && "!=="@[0] == '!' && "!=="@[1] == '=' && "!=="@[2] == '=');
    reveal_strlit(">");
    assert(">"@.len() == 1 && ">"@[0] == '>');
    reveal_strlit("<");
    assert("<"@.len() == 1 && "<"@[0] == '<');
    reveal_strlit(">=");
    assert(">="@.len() == 2 && ">="@[0] == '>' && ">="@[1] == '=');
    reveal_strlit("<=");
    assert("<="@.len() == 2 && "<="@[0] == '<' && "<="@[1] == '=');
    let assign = operator + "="@;
    if operator == "+"@ {
        assert(assign =~= "+="@);
        assert(assign == "+="@);
        assert(infix_rop("+"@) == Some(ROp::Add));
        assert(compound_rop("+="@) == Some(ROp::Add));
    }
    if operator == "-"@ {
        assert(assign =~= "-="@);
        assert(assign == "-="@);
        assert(infix_rop("-"@) == Some(ROp::Sub));
        assert(compound_rop("-="@) == Some(ROp::Sub));
    }
    if operator == "*"@ {
        assert(assign =~= "*="@);
        assert(assign == "*="@);
        assert(infix_rop("*"@) == Some(ROp::Mul));
        assert(compound_rop("*="@) == Some(ROp::Mul));
    }
    if operator == "/"@ {
        assert(assign =~= "/="@);
        assert(assign == "/="@);
        assert(infix_rop("/"@) == Some(ROp::Div));
        assert(compound_rop("/="@) == Some(ROp::Div));
    }
    if operator == "%"@ {
        assert(assign =~= "%="@);
        assert(assign == "%="@);
        assert(infix_rop("%"@) == Some(ROp::Mod));
        assert(compound_rop("%="@) == Some(ROp::Mod));
    }
    if operator == "**"@ {
        assert(assign =~= "**="@);
        assert(assign == "**="@);
        assert(infix_rop("**"@) == Some(ROp::Pow));
        assert(compound_rop("**="@) == Some(ROp::Pow));
    }
    if operator == "&"@ {
        assert(assign =~= "&="@);
        assert(assign == "&="@);
        assert(infix_rop("&"@) == Some(ROp::BitwiseAnd));
        assert(compound_rop("&="@) == Some(ROp::BitwiseAnd));
    }
    if operator == "|"@ {
        assert(assign =~= "|="@);
        assert(assign == "|="@);
        assert(infix_rop("|"@) == Some(ROp::BitwiseOr));
        assert(compound_rop("|="@) == Some(ROp::BitwiseOr));
    }
    if operator == "^"@ {
        assert(assign =~= "^="@);
        assert(assign == "^="@);
        assert(infix_rop("^"@) == Some(ROp::BitwiseXor));
        assert(compound_rop("^="@) == Some(ROp::BitwiseXor));
    }
    if operator == "<<"@ {
        assert(assign =~= "<<="@);
        assert(assign == "<<="@);
        assert(infix_rop("<<"@) == Some(ROp::LeftShift));
        assert(compound_rop("<<="@) == Some(ROp::LeftShift));
    }
    if operator == ">>"@ {
        assert(assign =~= ">>="@);
        assert(assign == ">>="@);
        assert(infix_rop(">>"@) == Some(ROp::RightShift));
        assert(compound_rop(">>="@) == Some(ROp::RightShift));
    }
    if operator == ">>>"@ {
        assert(assign =~= ">>>="@);
        assert(assign == ">>>="@);
        assert(infix_rop(">>>"@) == Some(ROp::UnsignedRightShift));
        assert(compound_rop(">>>="@) == Some(ROp::UnsignedRightShift));
    }
}

/// A literal is loaded as what it stands for.
pub proof fn law_literal_is_loaded(s: RView, e: Expression, dst: u16, z: RView, m: Run)
    requires
        s.err is None,
        is_extendable(s),
        is_stocked(s),
        begins(rgen_expr_into(s, e, dst), z),
        fits(z),
        m.ip == s.instructions.len(),
    ensures
        ({
            let t = rgen_expr_into(s, e, dst).instructions.len() as int;
            let next = step(z.instructions, z.constants, m);
            &&& e matches Expression::Integer(v) ==> next == Some(
                holding(m, dst as int, Datum::Number(v as int), t),
            )
            &&& e matches Expression::Boolean(v) ==> next == Some(
                holding(m, dst as int, Datum::Bool(v), t),
            )
            &&& e matches Expression::String(v) ==> next == Some(
                holding(m, dst as int, Datum::Text(v@), t),
            )
            &&& e is Null ==> next == Some(holding(m, dst as int, Datum::Null, t))
        }),
{
    reveal(expr_rrule);
    match e {
        Expression::Integer(v) => {
            law_integer_is_loaded(s, dst, v, z, m);
        },
        Expression::String(v) => {
            law_text_is_loaded(s, dst, v@, z, m);
        },
        Expression::Boolean(v) => {
            let op = if v {
                ROp::LoadTrue
            } else {
                ROp::LoadFalse
            };
            lemma_run_emit(s, op, seq![dst], z, m);
            assert(encoded_all(op, seq![dst])[0] == dst);
        },
        Expression::Null => {
            lemma_run_emit(s, ROp::LoadNull, seq![dst], z, m);
            assert(encoded_all(ROp::LoadNull, seq![dst])[0] == dst);
        },
        _ => {},
    }
}

/// What a prefix operator makes of a value.
pub open spec fn is_prefixed(operator: Seq<char>, x: Datum, y: Datum) -> bool {
    ||| operator == "!"@ && y == Datum::Bool(!is_truthy(x))
    ||| operator == "-"@ && (x matches Datum::Number(n) && y == Datum::Number(-n))
    ||| operator == "+"@ && (x matches Datum::Number(n) && y == Datum::Number(n))
    ||| operator == "~"@ && (x matches Datum::Number(n) && is_short(n) && y == Datum::Number(
        -1 - n,
    ))
}

/// A prefix operator is applied to its operand once that was evaluated.
pub proof fn law_prefix_operates(
    s: RView,
    e: Expression,
    dst: u16,
    z: RView,
    m: Run,
    y: Datum,
) -> (n: Run)
    requires
        s.err is None,
        is_extendable(s),
        is_stocked(s),
        begins(rgen_expr_into(s, e, dst), z),
        fits(z),
        e matches Expression::Prefix { operator, right } && ({
            &&& m.ip == rgen_expr(s, *right).instructions.len()
            &&& s.next_temp != rgen_expr(s, *right).next_temp
            &&& is_prefixed(operator@, m.regs[s.next_temp as int], y)
        }),
    ensures
        leads(z.instructions, z.constants, m, n),
        n.ip == rgen_expr_into(s, e, dst).instructions.len(),
        n.regs[dst as int] == y,
        n.globals == m.globals,
{
    broadcast use {ext_add_int, ext_emit, ext_take_temp, ext_load_const, extension_is_extendable};

    reveal(expr_rrule);
    reveal(rgen_prefix);
    reveal(RView::set_temps);
    reveal_strlit("!");
    reveal_strlit("-");
    reveal_strlit("+");
    reveal_strlit("~");
    assert("!"@[0] == '!' && "-"@[0] == '-' && "+"@[0] == '+' && "~"@[0] == '~');
    lemma_extends_self(s);
    match e {
        Expression::Prefix { operator, right } => {
            let source = s.next_temp;
            extends_expr(s, *right);
            let a = rgen_expr(s, *right);
            lemma_extends_self_after(s, a);
            let t = rgen_prefix(a, operator@, dst, source);
            assert(begins(t, z));
            if operator@ == "~"@ {
                let x = m.regs[source as int]->Number_0;
                let (b, idx) = a.add_int(-1i64);
                let ones = b.next_temp;
                let c = b.take_temp();
                let d = c.load_const(ones, idx);
                assert(t == d.emit(ROp::BitwiseXor, seq![dst, source, ones]));
                assert(b.instructions == a.instructions && b.next_temp == a.next_temp
                    && c.instructions == b.instructions && c.constants == b.constants) by {
                    reveal(RView::add_int);
                    reveal(RView::add_constant);
                    reveal(RView::take_temp);
                }
                lemma_fewer(t, z);
                lemma_emit_stands(c, ROp::LoadConst, seq![ones, idx]);
                lemma_emit_stands(d, ROp::BitwiseXor, seq![dst, source, ones]);
                reveal(RView::load_const);
                assert(begins(d, t));
                lemma_begins_on(d, t, z);
                assert(is_stocked(a)) by {
                    reveal(builds_on);
                }
                assert(b.constants.len() <= 0x1_0000);
                lemma_int_constant(a, -1i64);
                assert(z.constants[idx as int] == d.constants[idx as int]);
                lemma_run_emit(c, ROp::LoadConst, seq![ones, idx], z, m);
                let g = encoded_all(ROp::LoadConst, seq![ones, idx]);
                assert(g[0] == ones && g[1] == idx);
                let o = holding(m, ones as int, Datum::Number(-1), d.instructions.len() as int);
                lemma_run_emit(d, ROp::BitwiseXor, seq![dst, source, ones], z, o);
                let h = encoded_all(ROp::BitwiseXor, seq![dst, source, ones]);
                assert(h[0] == dst && h[1] == source && h[2] == ones);
                let w = x as i32;
                assert(w ^ (-1i32) == -1 - w) by (bit_vector);
                let n = holding(o, dst as int, Datum::Number(-1 - x), t.instructions.len() as int);
                lemma_leads_one(z.instructions, z.constants, o, n);
                lemma_leads_step(z.instructions, z.constants, m, o, n);
                n
            } else {
                let op = if operator@ == "!"@ {
                    ROp::Not
                } else if operator@ == "-"@ {
                    ROp::Neg
                } else {
                    ROp::UnaryPlus
                };
                lemma_run_emit(a, op, seq![dst, source], z, m);
                let g = encoded_all(op, seq![dst, source]);
                assert(g[0] == dst && g[1] == source);
                let n = holding(m, dst as int, y, t.instructions.len() as int);
                lemma_leads_one(z.instructions, z.constants, m, n);
                n
            }
        },
        _ => m,
    }
}

/// `void` gives undefined once its operand was evaluated.
pub proof fn law_void_is_undefined(s: RView, e: Expression, dst: u16, z: RView, m: Run)
    requires
        s.err is None,
        begins(rgen_expr_into(s, e, dst), z),
        fits(z),
        e matches Expression::Void { value } && m.ip == rgen_expr(s, *value).instructions.len(),
    ensures
        step(z.instructions, z.constants, m) == Some(
            holding(
                m,
                dst as int,
                Datum::Undefined,
                rgen_expr_into(s, e, dst).instructions.len() as int,
            ),
        ),
{
    reveal(expr_rrule);
    match e {
        Expression::Void { value } => {
            let a = rgen_expr(s, *value).set_temps(s.next_temp);
            assert(a.instructions == rgen_expr(s, *value).instructions) by {
                reveal(RView::set_temps);
            }
            lemma_run_emit(a, ROp::LoadUndef, seq![dst], z, m);
            assert(encoded_all(ROp::LoadUndef, seq![dst])[0] == dst);
        },
        _ => {},
    }
}

/// `typeof` names the kind of the value of an expression that is not a bare name.
pub proof fn law_typeof_names_kind(s: RView, e: Expression, dst: u16, z: RView, m: Run)
    requires
        s.err is None,
        begins(rgen_expr_into(s, e, dst), z),
        fits(z),
        e matches Expression::Typeof { value } && !(*value is Identifier) && m.ip == rgen_expr(
            s,
            *value,
        ).instructions.len(),
    ensures
        step(z.instructions, z.constants, m) == Some(
            holding(
                m,
                dst as int,
                Datum::Text(kind_name(m.regs[s.next_temp as int])),
                rgen_expr_into(s, e, dst).instructions.len() as int,
            ),
        ),
{
    reveal(expr_rrule);
    reveal(RView::set_temps);
    match e {
        Expression::Typeof { value } => {
            let a = rgen_expr(s, *value);
            let saved = s.next_temp;
            let t = a.emit(ROp::Typeof, seq![dst, saved]);
            assert(begins(t, z));
            lemma_run_emit(a, ROp::Typeof, seq![dst, saved], z, m);
            let g = encoded_all(ROp::Typeof, seq![dst, saved]);
            assert(g[0] == dst && g[1] == saved);
        },
        _ => {},
    }
}

/// An element is read from the object, which is evaluated first, under the key, which is
/// evaluated next.
pub proof fn law_index_reads_element(s: RView, e: Expression, dst: u16, z: RView, m: Run)
    requires
        s.err is None,
        begins(rgen_expr_into(s, e, dst), z),
        fits(z),
        e matches Expression::Index { left, index } && !(*index is String) && m.ip == rgen_expr(
            rgen_expr(s, *left),
            *index,
        ).instructions.len(),
    ensures
        e matches Expression::Index { left, index } && (element(
            m.regs[s.next_temp as int],
            m.regs[rgen_expr(s, *left).next_temp as int],
        ) matches Some(d) ==> step(z.instructions, z.constants, m) == Some(
            holding(m, dst as int, d, rgen_expr_into(s, e, dst).instructions.len() as int),
        )),
{
    reveal(expr_rrule);
    match e {
        Expression::Index { left, index } => {
            let object = s.next_temp;
            let a = rgen_expr(s, *left);
            let key = a.next_temp;
            let b = rgen_expr(a, *index);
            lemma_run_emit(b, ROp::Index, seq![dst, object, key], z, m);
            let g = encoded_all(ROp::Index, seq![dst, object, key]);
            assert(g[0] == dst && g[1] == object && g[2] == key);
        },
        _ => {},
    }
}

/// The test of optional chaining: where the value is null or undefined the result is
/// undefined and control goes to where the jump was sent, and on to what follows otherwise.
pub proof fn law_nullish_is_skipped(
    s: RView,
    source: u16,
    dst: u16,
    end: usize,
    z: RView,
    m: Run,
) -> (n: Run)
    requires
        is_extendable(s),
        s.next_temp != source,
        begins(test_nullish(s, source, dst).0.patch(test_nullish(s, source, dst).1, end), z),
        fits(z),
        end <= 0xffff,
        m.ip == s.instructions.len(),
    ensures
        leads(z.instructions, z.constants, m, n),
        n.globals == m.globals,
        is_nullish(m.regs[source as int]) ==> n.ip == end && n.regs[dst as int]
            == Datum::Undefined,
        !is_nullish(m.regs[source as int]) ==> n.ip == test_nullish(
            s,
            source,
            dst,
        ).0.instructions.len() && forall|r: int|
            r != s.next_temp ==> #[trigger] n.regs[r] == m.regs[r],
{
    reveal(test_nullish);
    reveal(RView::here);
    let flag = s.next_temp;
    let (t, jump) = test_nullish(s, source, dst);
    let y = t.patch(jump, end);
    let a = s.take_temp();
    assert(a.instructions == s.instructions) by {
        reveal(RView::take_temp);
    }
    let b = a.emit(ROp::IsNullish, seq![flag, source]);
    let c = b.emit(ROp::JumpIfNot, seq![flag, PLACEHOLDER]);
    let d = c.emit(ROp::LoadUndef, seq![dst]);
    let e = d.emit(ROp::Jump, seq![PLACEHOLDER]);
    let present = b.here();
    lemma_emit_stands(a, ROp::IsNullish, seq![flag, source]);
    lemma_emit_stands(b, ROp::JumpIfNot, seq![flag, PLACEHOLDER]);
    lemma_emit_stands(c, ROp::LoadUndef, seq![dst]);
    lemma_emit_stands(d, ROp::Jump, seq![PLACEHOLDER]);
    assert(t == e.patch(present, e.here()));
    assert(y.instructions.len() == e.instructions.len()) by {
        reveal(RView::patch);
    }
    let p0 = a.instructions.len() as int;
    let p1 = b.instructions.len() as int;
    let p2 = c.instructions.len() as int;
    let p3 = d.instructions.len() as int;
    let p4 = e.instructions.len() as int;
    assert(begins(b, c) && begins(c, d) && begins(d, e));
    lemma_begins_on(b, c, d);
    lemma_begins_on(b, d, e);
    lemma_begins_on(c, d, e);
    lemma_begin_stands(b, e, p0, ROp::IsNullish, seq![flag, source]);
    lemma_begin_stands(c, e, p1, ROp::JumpIfNot, seq![flag, PLACEHOLDER]);
    lemma_begin_stands(d, e, p2, ROp::LoadUndef, seq![dst]);
    let go = seq![flag, PLACEHOLDER];
    lemma_patch_other(e, present, ROp::JumpIfNot, go, p4 as usize, p0, ROp::IsNullish, seq![flag, source]);
    lemma_patch_other(e, present, ROp::JumpIfNot, go, p4 as usize, p2, ROp::LoadUndef, seq![dst]);
    lemma_patch_other(e, present, ROp::JumpIfNot, go, p4 as usize, p3, ROp::Jump, seq![PLACEHOLDER]);
    lemma_patch_stands(e, present, ROp::JumpIfNot, go, p4 as usize);
    let gone = seq![flag, p4 as u16];
    assert(go.update(1, p4 as u16) =~= gone);
    let wait = seq![PLACEHOLDER];
    lemma_patch_other(t, jump, ROp::Jump, wait, end, p0, ROp::IsNullish, seq![flag, source]);
    lemma_patch_other(t, jump, ROp::Jump, wait, end, p1, ROp::JumpIfNot, gone);
    lemma_patch_other(t, jump, ROp::Jump, wait, end, p2, ROp::LoadUndef, seq![dst]);
    lemma_patch_stands(t, jump, ROp::Jump, wait, end);
    assert(wait.update(0, end as u16) =~= seq![end as u16]);
    lemma_begin_stands(y, z, p0, ROp::IsNullish, seq![flag, source]);
    lemma_begin_stands(y, z, p1, ROp::JumpIfNot, gone);
    lemma_begin_stands(y, z, p2, ROp::LoadUndef, seq![dst]);
    lemma_begin_stands(y, z, p3, ROp::Jump, seq![end as u16]);
    lemma_step(z.instructions, z.constants, m, ROp::IsNullish, seq![flag, source]);
    let g0 = encoded_all(ROp::IsNullish, seq![flag, source]);
    assert(g0[0] == flag && g0[1] == source);
    let nullish = is_nullish(m.regs[source as int]);
    let m1 = holding(m, flag as int, Datum::Bool(nullish), p1);
    lemma_step(z.instructions, z.constants, m1, ROp::JumpIfNot, gone);
    let g1 = encoded_all(ROp::JumpIfNot, gone);
    assert(g1[0] == flag && g1[1] == p4);
    if nullish {
        let m2 = at(m1, p2);
        lemma_step(z.instructions, z.constants, m2, ROp::LoadUndef, seq![dst]);
        assert(encoded_all(ROp::LoadUndef, seq![dst])[0] == dst);
        let m3 = holding(m2, dst as int, Datum::Undefined, p3);
        lemma_step(z.instructions, z.constants, m3, ROp::Jump, seq![end as u16]);
        assert(encoded_all(ROp::Jump, seq![end as u16])[0] == end);
        let n = at(m3, end as int);
        lemma_leads_one(z.instructions, z.constants, m3, n);
        lemma_leads_step(z.instructions, z.constants, m2, m3, n);
        lemma_leads_step(z.instructions, z.constants, m1, m2, n);
        lemma_leads_step(z.instructions, z.constants, m, m1, n);
        n
    } else {
        let n = at(m1, p4);
        lemma_leads_one(z.instructions, z.constants, m1, n);
        lemma_leads_step(z.instructions, z.constants, m, m1, n);
        n
    }
}

} // verus!
