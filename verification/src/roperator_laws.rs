//! What the operators of the language compute when register code is run.
use vstd::arithmetic::div_mod::{lemma_div_multiples_vanish, lemma_mod_multiples_basic};
use vstd::arithmetic::power::pow;
use vstd::arithmetic::power2::pow2;
use vstd::prelude::*;

use crate::ast::Expression;
use crate::rcode::ROp;
use crate::rcodegen::{infix_rop, RView};
use crate::rextend::{
    builds_on, ext_emit, ext_set_temps, extension_is_extendable, is_extendable, lemma_extends_self,
};
use crate::rextend_expressions::extends_expr;
use crate::rmeaning::{
    binary, encoded_all, holding, is_nullish, is_scalar, is_short, lemma_emit_stands, lemma_step,
    lookup, remainder, step, Datum, Run,
};
use crate::rrules::{expr_rrule, rgen_expr, rgen_expr_into};

verus! {

/// Whether `z` is what an operator that evaluates both of its operands makes of the
/// numbers, texts, truth values or records `x` and `y`.
pub open spec fn is_result(operator: Seq<char>, x: Datum, y: Datum, z: Datum) -> bool {
    match (x, y, z) {
        (Datum::Number(a), Datum::Number(b), Datum::Number(c)) => {
            ||| operator == "+"@ && c == a + b
            ||| operator == "-"@ && c + b == a
            ||| operator == "*"@ && c == a * b
            ||| operator == "/"@ && b != 0 && c * b == a
            ||| operator == "%"@ && b != 0 && c == remainder(a, b)
            ||| operator == "**"@ && b >= 0 && c == pow(a, b as nat)
            ||| operator == "&"@ && is_short(a) && is_short(b) && c == (a as i32 & b as i32)
            ||| operator == "|"@ && is_short(a) && is_short(b) && c == (a as i32 | b as i32)
            ||| operator == "^"@ && is_short(a) && is_short(b) && c == (a as i32 ^ b as i32)
            ||| operator == "<<"@ && is_short(a) && 0 <= b < 32 && is_short(c) && c == a * pow2(
                b as nat,
            )
            ||| operator == ">>"@ && is_short(a) && 0 <= b < 32 && c == a / pow2(b as nat) as int
            ||| operator == ">>>"@ && is_short(a) && 0 <= b < 32 && c == (a % 0x1_0000_0000)
                / pow2(b as nat) as int
        },
        (Datum::Number(a), Datum::Number(b), Datum::Bool(c)) => {
            ||| (operator == "=="@ || operator == "==="@) && c == (a == b)
            ||| (operator == "!="@ || operator == "!=="@) && c == (a != b)
            ||| operator == "<"@ && c == (a < b)
            ||| operator == "<="@ && c == (a <= b)
            ||| operator == ">"@ && c == (a > b)
            ||| operator == ">="@ && c == (a >= b)
        },
        (Datum::Text(a), Datum::Text(b), Datum::Text(c)) => operator == "+"@ && c == a + b,
        (Datum::Text(name), Datum::Record(items), Datum::Bool(c)) => operator == "in"@ && c == (
        lookup(items, name) is Some),
        (_, _, Datum::Bool(c)) => {
            ||| operator == "==="@ && is_scalar(x) && is_scalar(y) && c == (x == y)
            ||| operator == "!=="@ && is_scalar(x) && is_scalar(y) && c == (x != y)
            ||| operator == "=="@ && is_nullish(x) && c == is_nullish(y)
            ||| operator == "!="@ && is_nullish(x) && c == !is_nullish(y)
        },
        _ => false,
    }
}

proof fn lemma_operator_names()
    ensures
        "+"@.len() == 1 && "+"@[0] == '+',
        "-"@.len() == 1 && "-"@[0] == '-',
        "*"@.len() == 1 && "*"@[0] == '*',
        "/"@.len() == 1 && "/"@[0] == '/',
        "%"@.len() == 1 && "%"@[0] == '%',
        "**"@.len() == 2 && "**"@[0] == '*' && "**"@[1] == '*',
        "=="@.len() == 2 && "=="@[0] == '=' && "=="@[1] == '=',
        "!="@.len() == 2 && "!="@[0] == '!' && "!="@[1] == '=',
        "==="@.len() == 3 && "==="@[0] == '=' && "==="@[1] == '=' && "==="@[2] == '=',
        "!=="@.len() == 3 && "!=="@[0] == '!' && "!=="@[1] == '=' && "!=="@[2] == '=',
        ">"@.len() == 1 && ">"@[0] == '>',
        "<"@.len() == 1 && "<"@[0] == '<',
        ">="@.len() == 2 && ">="@[0] == '>' && ">="@[1] == '=',
        "<="@.len() == 2 && "<="@[0] == '<' && "<="@[1] == '=',
        "&"@.len() == 1 && "&"@[0] == '&',
        "|"@.len() == 1 && "|"@[0] == '|',
        "^"@.len() == 1 && "^"@[0] == '^',
        "<<"@.len() == 2 && "<<"@[0] == '<' && "<<"@[1] == '<',
        ">>"@.len() == 2 && ">>"@[0] == '>' && ">>"@[1] == '>',
        ">>>"@.len() == 3 && ">>>"@[0] == '>' && ">>>"@[1] == '>' && ">>>"@[2] == '>',
        "in"@.len() == 2 && "in"@[0] == 'i' && "in"@[1] == 'n',
        ","@.len() == 1 && ","@[0] == ',',
        "&&"@.len() == 2 && "&&"@[0] == '&' && "&&"@[1] == '&',
        "||"@.len() == 2 && "||"@[0] == '|' && "||"@[1] == '|',
        "??"@.len() == 2 && "??"@[0] == '?' && "??"@[1] == '?',
        "!"@.len() == 1 && "!"@[0] == '!',
        "~"@.len() == 1 && "~"@[0] == '~',
{
    reveal_strlit("+");
    reveal_strlit("-");
    reveal_strlit("*");
    reveal_strlit("/");
    reveal_strlit("%");
    reveal_strlit("**");
    reveal_strlit("==");
    reveal_strlit("!=");
    reveal_strlit("===");
    reveal_strlit("!==");
    reveal_strlit(">");
    reveal_strlit("<");
    reveal_strlit(">=");
    reveal_strlit("<=");
    reveal_strlit("&");
    reveal_strlit("|");
    reveal_strlit("^");
    reveal_strlit("<<");
    reveal_strlit(">>");
    reveal_strlit(">>>");
    reveal_strlit("in");
    reveal_strlit(",");
    reveal_strlit("&&");
    reveal_strlit("||");
    reveal_strlit("??");
    reveal_strlit("!");
    reveal_strlit("~");
}

/// What an operator makes of two values is what its instruction computes.
proof fn lemma_operation(operator: Seq<char>, x: Datum, y: Datum, z: Datum)
    requires
        is_result(operator, x, y, z),
    ensures
        infix_rop(operator) is Some,
        binary(infix_rop(operator)->0, x, y) == Some(z),
        operator != ","@,
        operator != "&&"@,
        operator != "||"@,
        operator != "??"@,
{
    lemma_operator_names();
    reveal(infix_rop);
    if let (Datum::Number(a), Datum::Number(b), Datum::Number(c)) = (x, y, z) {
        if operator == "/"@ {
            assert(c * b == b * c) by (nonlinear_arith);
            if b > 0 {
                lemma_div_multiples_vanish(c, b);
                lemma_mod_multiples_basic(c, b);
            } else {
                let d = -b;
                assert(a == (-c) * d) by (nonlinear_arith)
                    requires
                        c * b == a,
                        d == -b,
                ;
                lemma_div_multiples_vanish(-c, d);
                lemma_mod_multiples_basic(-c, d);
                assert(a % b == 0 && a / b == c) by (nonlinear_arith)
                    requires
                        b < 0,
                        c * b == a,
                ;
            }
        }
    }
}

/// Both operands of an infix operator are evaluated, the left one first, into registers
/// of their own. The next instruction computes what the operator makes of the two, and
/// is the last one.
pub proof fn law_infix_operates(s: RView, e: Expression, dst: u16, m: Run, z: Datum)
    requires
        s.err is None,
        rgen_expr_into(s, e, dst).err is None,
        is_extendable(s),
        e matches Expression::Infix { left, operator, right } && ({
            let a = rgen_expr(s, *left);
            let b = rgen_expr(a, *right);
            &&& m.ip == b.instructions.len()
            &&& is_result(
                operator@,
                m.regs[s.next_temp as int],
                m.regs[a.next_temp as int],
                z,
            )
        }),
    ensures
        e matches Expression::Infix { left, operator, right } && ({
            let t = rgen_expr_into(s, e, dst);
            &&& builds_on(rgen_expr(rgen_expr(s, *left), *right), t)
            &&& step(t.instructions, t.constants, m) == Some(
                holding(m, dst as int, z, t.instructions.len() as int),
            )
        }),
{
    broadcast use {ext_emit, ext_set_temps, extension_is_extendable};

    if let Expression::Infix { left, operator, right } = e {
        let saved = s.next_temp;
        let a = rgen_expr(s, *left);
        extends_expr(s, *left);
        let r = a.next_temp;
        let b = rgen_expr(a, *right);
        extends_expr(a, *right);
        let x = m.regs[saved as int];
        let y = m.regs[r as int];
        lemma_operation(operator@, x, y, z);
        let op = infix_rop(operator@)->0;
        let t = rgen_expr_into(s, e, dst);
        reveal(expr_rrule);
        let u = b.emit(op, seq![dst, saved, r]);
        assert(t == u.set_temps(saved));
        lemma_extends_self(b);
        lemma_emit_stands(b, op, seq![dst, saved, r]);
        reveal(RView::set_temps);
        lemma_operation_shape(operator@);
        lemma_step(t.instructions, t.constants, m, op, seq![dst, saved, r]);
        let given = encoded_all(op, seq![dst, saved, r]);
        assert(given[0] == dst && given[1] == saved && given[2] == r);
    }
}

/// The instructions of operators take a destination and two operands.
proof fn lemma_operation_shape(operator: Seq<char>)
    ensures
        infix_rop(operator) matches Some(op) ==> op != ROp::MakeClosure && crate::rcode::rwidths_of(
            op,
        ) == seq![2usize, 2usize, 2usize],
{
    reveal(infix_rop);
}

/// Different operators are different instructions.
pub proof fn law_operators_differ(a: Seq<char>, b: Seq<char>)
    requires
        infix_rop(a) is Some,
        infix_rop(a) == infix_rop(b),
    ensures
        a == b,
{
    reveal(infix_rop);
}

} // verus!
