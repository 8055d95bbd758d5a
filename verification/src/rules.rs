//! What code the stack compiler generates for each kind of statement and
//! expression.
//!
//! Each rule takes the compiler's state to the state after the construct was
//! compiled. A rule leaves a state whose `err` is set as it is.
use vstd::prelude::*;

use crate::ast::{
    ArrayBindingItem, BindingPattern, BindingTarget, ClassMember, Expression, ForBinding,
    HashEntry, ObjectBindingItem, Program, Statement, SwitchCase, VariableKind,
};
use crate::builtins::global_member;
use crate::code::Opcode;
use crate::codegen::{
    compound_opcode, fuse_accumulate, fuse_compare, fuse_increment, fuse_mod_eq,
    fuse_property_increment, fuse_property_sum, has_spread, infix_opcode, is_const,
    is_logical_assignment, is_name_assignment, known_global, CompilerView, Slot, PLACEHOLDER,
};
use crate::names::Names;
use crate::object::{ClassView, FunctionView, ObjectView, StaticInitializerView};

verus! {

// Names that a scope declares

/// The names that a pattern binds, in source order.
pub open spec fn pattern_names(p: BindingPattern) -> Seq<Seq<char>>
    decreases p, 0int, 0int,
{
    match p {
        BindingPattern::Array(items) => array_item_names(items, 0),
        BindingPattern::Object(items) => object_item_names(items, 0),
    }
}

pub open spec fn array_item_names(items: Vec<ArrayBindingItem>, i: int) -> Seq<Seq<char>>
    decreases items, 1int, items@.len() - i,
{
    if i < 0 || i >= items@.len() {
        Seq::empty()
    } else {
        (match items@[i] {
            ArrayBindingItem::Hole => Seq::empty(),
            ArrayBindingItem::Binding { target, .. } => target_names(target),
            ArrayBindingItem::Rest { name } => seq![name@],
        }) + array_item_names(items, i + 1)
    }
}

pub open spec fn object_item_names(items: Vec<ObjectBindingItem>, i: int) -> Seq<Seq<char>>
    decreases items, 1int, items@.len() - i,
{
    if i < 0 || i >= items@.len() {
        Seq::empty()
    } else {
        target_names(items@[i].target) + object_item_names(items, i + 1)
    }
}

pub open spec fn target_names(t: BindingTarget) -> Seq<Seq<char>>
    decreases t, 0int, 0int,
{
    match t {
        BindingTarget::Identifier(name) => seq![name@],
        BindingTarget::Pattern(p) => pattern_names(*p),
    }
}

/// The names that `var` declares in statements from position `i` on, function
/// bodies excepted.
pub open spec fn var_names(stmts: Vec<Statement>, i: int) -> Seq<Seq<char>>
    decreases stmts, 1int, stmts@.len() - i,
{
    if i < 0 || i >= stmts@.len() {
        Seq::empty()
    } else {
        statement_var_names(stmts@[i]) + var_names(stmts, i + 1)
    }
}

pub open spec fn case_var_names(cases: Vec<SwitchCase>, i: int) -> Seq<Seq<char>>
    decreases cases, 1int, cases@.len() - i,
{
    if i < 0 || i >= cases@.len() {
        Seq::empty()
    } else {
        var_names(cases@[i].consequent, 0) + case_var_names(cases, i + 1)
    }
}

pub open spec fn optional_var_names(stmts: Option<Vec<Statement>>) -> Seq<Seq<char>>
    decreases stmts, 0int, 0int,
{
    match stmts {
        Some(v) => var_names(v, 0),
        None => Seq::empty(),
    }
}

pub open spec fn statement_var_names(stmt: Statement) -> Seq<Seq<char>>
    decreases stmt, 0int, 0int,
{
    match stmt {
        Statement::Let { name, kind, .. } => if kind == VariableKind::Var {
            seq![name@]
        } else {
            Seq::empty()
        },
        Statement::LetPattern { pattern, kind, .. } => if kind == VariableKind::Var {
            pattern_names(pattern)
        } else {
            Seq::empty()
        },
        Statement::Block(body) => var_names(body, 0),
        Statement::MultiLet(body) => var_names(body, 0),
        Statement::While { body, .. } => var_names(body, 0),
        Statement::DoWhile { body, .. } => var_names(body, 0),
        Statement::For { init, body, .. } => (match init {
            Some(first) => statement_var_names(*first),
            None => Seq::empty(),
        }) + var_names(body, 0),
        Statement::ForOf { body, .. } => var_names(body, 0),
        Statement::ForIn { body, .. } => var_names(body, 0),
        Statement::Labeled { statement, .. } => statement_var_names(*statement),
        Statement::Try { try_block, catch_block, finally_block, .. } => var_names(try_block, 0)
            + optional_var_names(catch_block) + optional_var_names(finally_block),
        Statement::Switch { cases, .. } => case_var_names(cases, 0),
        Statement::Expression(e) => match e {
            Expression::If { consequence, alternative, .. } => var_names(consequence, 0)
                + optional_var_names(alternative),
            _ => Seq::empty(),
        },
        _ => Seq::empty(),
    }
}

/// Give each name of a list from position `i` on a slot.
#[verifier::opaque]
pub open spec fn declare_all(s: CompilerView, names: Seq<Seq<char>>, i: int) -> CompilerView
    decreases names.len() - i,
{
    if i < 0 || i >= names.len() {
        s
    } else {
        declare_all(s.binding_slot(names[i]).0, names, i + 1)
    }
}

/// The parameter names without the marks of rest parameters, the position of
/// the rest parameter, and the message if the list is not acceptable.
pub struct Parameters {
    pub names: Seq<Seq<char>>,
    pub rest: Option<usize>,
    pub err: Option<Seq<char>>,
}

/// Whether a parameter is written `...name`.
pub open spec fn is_rest_parameter(p: Seq<char>) -> bool {
    p.len() >= 3 && p.take(3) == "..."@
}

/// The first `n` parameters of a list.
pub open spec fn parameters(list: Seq<String>, n: int) -> Parameters
    decreases n,
{
    if n <= 0 {
        Parameters { names: Seq::empty(), rest: None, err: None }
    } else {
        let before = parameters(list, n - 1);
        let p = list[n - 1]@;
        if before.err is Some {
            before
        } else if is_rest_parameter(p) {
            if p.len() == 3 {
                Parameters { err: Some("invalid rest parameter name"@), ..before }
            } else if n != list.len() {
                Parameters { err: Some("rest parameter must be last"@), ..before }
            } else {
                Parameters {
                    names: before.names.push(p.skip(3)),
                    rest: Some((n - 1) as usize),
                    err: None,
                }
            }
        } else {
            Parameters { names: before.names.push(p), ..before }
        }
    }
}

/// The names of a function's first locals.
pub open spec fn effective_parameters(names: Seq<Seq<char>>, takes_this: bool) -> Seq<Seq<char>> {
    if takes_this {
        seq!["this"@] + names
    } else {
        names
    }
}

// Statements

pub open spec fn gen_stmts(s: CompilerView, stmts: Vec<Statement>, i: int) -> CompilerView
    decreases stmts, 1int, stmts@.len() - i, 1int,
{
    stmts_rule(s, stmts, i)
}

#[verifier::opaque]
pub open spec fn stmts_rule(s: CompilerView, stmts: Vec<Statement>, i: int) -> CompilerView
    decreases stmts, 1int, stmts@.len() - i, 0int,
{
    if i < 0 || i >= stmts@.len() {
        s
    } else {
        gen_stmts(gen_stmt(s, stmts@[i]), stmts, i + 1)
    }
}

/// A statement, unless the program was rejected already.
pub open spec fn gen_stmt(s: CompilerView, stmt: Statement) -> CompilerView
    decreases stmt, 10int, 0int, 0int,
{
    if s.err is Some {
        s
    } else {
        stmt_rule(s.clear_elided(), stmt)
    }
}

#[verifier::opaque]
pub open spec fn stmt_rule(s: CompilerView, stmt: Statement) -> CompilerView
    decreases stmt, 9int, 0int, 0int,
{
    match stmt {
        Statement::Let { name, value, kind } => {
            let s = if is_const(kind) {
                s.declare_const(name@)
            } else {
                s
            };
            let (s, idx) = s.binding_slot(name@);
            let s = gen_expr(s, value);
            if s.is_function_scope {
                let (s, global) = s.global_slot(name@);
                s.emit1(Opcode::OpSetLocal, idx).emit1(Opcode::OpGetLocal, idx).emit1(
                    Opcode::OpSetGlobal,
                    global,
                )
            } else {
                s.emit1(Opcode::OpSetGlobal, idx)
            }
        },
        Statement::LetPattern { pattern, value, kind } => {
            let s = if is_const(kind) {
                s.declare_consts(pattern_names(pattern))
            } else {
                s
            };
            gen_pattern(gen_expr(s, value), pattern)
        },
        Statement::Return { value } => gen_expr(s, value).emit0(Opcode::OpReturnValue),
        Statement::ReturnVoid => s.emit0(Opcode::OpReturn),
        Statement::Expression(e) => gen_expr_stmt(s, e),
        Statement::Block(body) => gen_stmts(s, body, 0),
        Statement::MultiLet(body) => gen_stmts(s, body, 0),
        Statement::While { .. } => gen_while(s, stmt, None),
        Statement::DoWhile { .. } => gen_do_while(s, stmt, None),
        Statement::For { .. } => gen_for(s, stmt, None),
        Statement::ForOf { .. } => gen_for_of(s, stmt, None),
        Statement::ForIn { .. } => gen_for_in(s, stmt, None),
        Statement::Switch { .. } => gen_switch(s, stmt, None),
        Statement::FunctionDecl { name, parameters, body, is_async, is_generator } => {
            let (s, f) = gen_function(s, parameters, body, true, is_async, is_generator);
            s.push_object(ObjectView::Function(f)).assign_top(name@)
        },
        Statement::ClassDecl { name, extends, members } => {
            let s = gen_class_value(s, name, extends, members);
            match name {
                Some(n) => s.assign_top(n@),
                None => s,
            }
        },
        Statement::Throw { value } => gen_throw(s, value),
        Statement::Try { .. } => gen_try(s, stmt),
        Statement::Labeled { label, statement } => match *statement {
            Statement::While { .. } => gen_while(s, *statement, Some(label@)),
            Statement::DoWhile { .. } => gen_do_while(s, *statement, Some(label@)),
            Statement::Switch { .. } => gen_switch(s, *statement, Some(label@)),
            Statement::For { .. } => gen_for(s, *statement, Some(label@)),
            Statement::ForOf { .. } => gen_for_of(s, *statement, Some(label@)),
            Statement::ForIn { .. } => gen_for_in(s, *statement, Some(label@)),
            _ => s.fail("only loop statements can be labeled"@),
        },
        Statement::Break { label } => s.jump_from_loop(label_view(label), true),
        Statement::Continue { label } => s.jump_from_loop(label_view(label), false),
        Statement::Debugger => s,
    }
}

/// The text of a label, if there is one.
pub open spec fn label_view(label: Option<String>) -> Option<Seq<char>> {
    match label {
        Some(l) => Some(l@),
        None => None,
    }
}

/// An expression whose value is not used.
pub open spec fn gen_expr_stmt(s: CompilerView, e: Expression) -> CompilerView
    decreases e, 8int, 0int, 1int,
{
    expr_stmt_rule(s, e)
}

#[verifier::opaque]
pub open spec fn expr_stmt_rule(s: CompilerView, e: Expression) -> CompilerView
    decreases e, 8int, 0int, 0int,
{
    if e is If {
        gen_if_stmt(s, e)
    } else {
        let start = s.here();
        match fuse_property_increment(s, e) {
            (s, Some((slot, prop, amount, cache))) => s.emit(
                Opcode::OpAddConstToGlobalProperty,
                seq![slot, prop, amount, cache],
            ),
            (s, None) => match fuse_property_sum(s, e) {
                (s, Some(operands)) => s.emit(Opcode::OpAddGlobalPropsToGlobalProp, operands),
                (s, None) => match fuse_increment(s, e) {
                    (s, Some((slot, idx, op))) => s.emit(op, seq![slot, idx]).set_elided(
                            if op == Opcode::OpIncrementLocal {
                                    Opcode::OpGetLocal
                                } else {
                                    Opcode::OpGetGlobal
                                },
                            slot,
                        ),
                    (s, None) => match fuse_accumulate(s, e) {
                        Some((target, source)) => s.emit(Opcode::OpAccumulateGlobal, seq![target, source]).set_elided(
                            Opcode::OpGetGlobal,
                            target,
                        ),
                        None => gen_expr(s, e).drop_result(is_name_assignment(e), start),
                    },
                },
            },
        }
    }
}

/// The test of an `if`: the state, the position of the jump that is taken when
/// it fails, and where in its operands the target stands.
pub open spec fn gen_condition(s: CompilerView, c: Expression) -> (CompilerView, usize, int)
    decreases c, 9int, 0int, 1int,
{
    condition_rule(s, c)
}

#[verifier::opaque]
pub open spec fn condition_rule(s: CompilerView, c: Expression) -> (CompilerView, usize, int)
    decreases c, 9int, 0int, 0int,
{
    match fuse_mod_eq(s, c) {
        (s, Some((slot, m, k))) => (
            s.emit(
                Opcode::OpModGlobalConstStrictEqConstJump,
                seq![slot, m, k, PLACEHOLDER],
            ),
            s.here(),
            6,
        ),
        (s, None) => gen_test(s, c),
    }
}

/// The test of a loop, in the same terms.
pub open spec fn gen_test(s: CompilerView, c: Expression) -> (CompilerView, usize, int)
    decreases c, 8int, 0int, 1int,
{
    test_rule(s, c)
}

#[verifier::opaque]
pub open spec fn test_rule(s: CompilerView, c: Expression) -> (CompilerView, usize, int)
    decreases c, 8int, 0int, 0int,
{
    match fuse_compare(s, c) {
        (s, Some((slot, idx, op))) => (s.emit(op, seq![slot, idx, PLACEHOLDER]), s.here(), 4),
        (s, None) => {
            let s = gen_expr(s, c);
            (s.emit1(Opcode::OpJumpNotTruthy, PLACEHOLDER), s.here(), 0)
        },
    }
}

/// An `if` whose value is not used.
pub open spec fn gen_if_stmt(s: CompilerView, e: Expression) -> CompilerView
    decreases e, 4int, 0int, 1int,
{
    if_stmt_rule(s, e)
}

#[verifier::opaque]
pub open spec fn if_stmt_rule(s: CompilerView, e: Expression) -> CompilerView
    decreases e, 4int, 0int, 0int,
{
    match e {
        Expression::If { condition, consequence, alternative } => {
            let (s, jump, offset) = gen_condition(s, *condition);
            let s = gen_stmts(s, consequence, 0);
            match alternative {
                Some(alt) => {
                    let over = s.here();
                    let s = s.emit1(Opcode::OpJump, PLACEHOLDER);
                    let s = s.patch(jump, offset, s.here());
                    let s = gen_stmts(s, alt, 0);
                    s.patch(over, 0, s.here())
                },
                None => s.patch(jump, offset, s.here()),
            }
        },
        _ => s,
    }
}

pub open spec fn gen_while(
    s: CompilerView,
    stmt: Statement,
    label: Option<Seq<char>>,
) -> CompilerView
    decreases stmt, 4int, 0int, 1int,
{
    while_rule(s, stmt, label)
}

#[verifier::opaque]
pub open spec fn while_rule(
    s: CompilerView,
    stmt: Statement,
    label: Option<Seq<char>>,
) -> CompilerView
    decreases stmt, 4int, 0int, 0int,
{
    match stmt {
        Statement::While { condition, body } => {
            let start = s.here();
            let (s, jump, offset) = gen_test(s, condition);
            let s = gen_stmts(s.open_loop(label, start), body, 0);
            let s = s.jump_back(start);
            let end = s.here();
            s.patch(jump, offset, end).close_loop(end).emit0(Opcode::OpNull)
        },
        _ => s,
    }
}

pub open spec fn gen_do_while(
    s: CompilerView,
    stmt: Statement,
    label: Option<Seq<char>>,
) -> CompilerView
    decreases stmt, 4int, 0int, 1int,
{
    do_while_rule(s, stmt, label)
}

#[verifier::opaque]
pub open spec fn do_while_rule(
    s: CompilerView,
    stmt: Statement,
    label: Option<Seq<char>>,
) -> CompilerView
    decreases stmt, 4int, 0int, 0int,
{
    match stmt {
        Statement::DoWhile { body, condition } => {
            let start = s.here();
            let s = gen_stmts(s.open_loop(label, start), body, 0);
            let s = gen_expr(s.continue_here(), condition);
            let exit = s.here();
            let s = s.emit1(Opcode::OpJumpNotTruthy, PLACEHOLDER);
            let s = s.emit1(Opcode::OpJump, start as u16);
            let end = s.here();
            s.patch(exit, 0, end).close_loop(end).emit0(Opcode::OpNull)
        },
        _ => s,
    }
}

pub open spec fn gen_for(s: CompilerView, stmt: Statement, label: Option<Seq<char>>) -> CompilerView
    decreases stmt, 4int, 0int, 1int,
{
    for_rule(s, stmt, label)
}

#[verifier::opaque]
pub open spec fn for_rule(s: CompilerView, stmt: Statement, label: Option<Seq<char>>) -> CompilerView
    decreases stmt, 4int, 0int, 0int,
{
    match stmt {
        Statement::For { init, condition, update, body } => {
            let s = match init {
                Some(first) => gen_stmt(s, *first).remove_last_pop(),
                None => s,
            };
            let start = s.here();
            let (s, jump, offset) = match condition {
                Some(c) => gen_test(s, c),
                None => {
                    let s = s.emit0(Opcode::OpTrue);
                    (s.emit1(Opcode::OpJumpNotTruthy, PLACEHOLDER), s.here(), 0int)
                },
            };
            let s = gen_stmts(s.open_loop(label, start), body, 0).continue_here();
            let s = match update {
                Some(u) => gen_for_update(s, u, start),
                None => s.emit1(Opcode::OpJump, start as u16),
            };
            let end = s.here();
            s.patch(jump, offset, end).close_loop(end).emit0(Opcode::OpNull)
        },
        _ => s,
    }
}

/// The update of a `for` loop, and the jump back to its start.
pub open spec fn gen_for_update(s: CompilerView, update: Expression, start: usize) -> CompilerView
    decreases update, 8int, 0int, 1int,
{
    for_update_rule(s, update, start)
}

#[verifier::opaque]
pub open spec fn for_update_rule(s: CompilerView, update: Expression, start: usize) -> CompilerView
    decreases update, 8int, 0int, 0int,
{
    match fuse_increment(s, update) {
        (s, Some((slot, idx, op))) => if op == Opcode::OpIncrementGlobal {
            s.emit(Opcode::OpIncrementGlobalAndJump, seq![slot, idx, start as u16])
        } else {
            s.emit(op, seq![slot, idx]).emit1(Opcode::OpJump, start as u16)
        },
        (s, None) => gen_expr(s, update).emit0(Opcode::OpPop).emit1(
            Opcode::OpJump,
            start as u16,
        ),
    }
}

/// `index < source.length` and the jump that leaves the loop, for the hidden
/// variables of a loop.
#[verifier::opaque]
pub open spec fn gen_length_test(
    s: CompilerView,
    index: Seq<char>,
    source: Seq<char>,
) -> CompilerView {
    s.push_name(index).push_property(source, "length"@).emit0(Opcode::OpLessThan).emit1(
        Opcode::OpJumpNotTruthy,
        PLACEHOLDER,
    )
}

/// `source[index]`, for the hidden variables of a loop.
#[verifier::opaque]
pub open spec fn gen_item(s: CompilerView, index: Seq<char>, source: Seq<char>) -> CompilerView {
    s.push_name(source).push_name(index).emit0(Opcode::OpIndex)
}

/// `index += 1` and the jump back to the start of the loop.
#[verifier::opaque]
pub open spec fn gen_next_item(s: CompilerView, index: Seq<char>, start: usize) -> CompilerView {
    s.step_name(index, "+="@).emit0(Opcode::OpPop).emit1(Opcode::OpJump, start as u16)
}

pub open spec fn gen_for_of(
    s: CompilerView,
    stmt: Statement,
    label: Option<Seq<char>>,
) -> CompilerView
    decreases stmt, 4int, 0int, 1int,
{
    for_of_rule(s, stmt, label)
}

#[verifier::opaque]
pub open spec fn for_of_rule(
    s: CompilerView,
    stmt: Statement,
    label: Option<Seq<char>>,
) -> CompilerView
    decreases stmt, 4int, 0int, 0int,
{
    match stmt {
        Statement::ForOf { binding, iterable, body } => {
            let source = s.temp("iter"@);
            let s = s.after_temp();
            let index = s.temp("i"@);
            let s = gen_expr(s.after_temp(), iterable);
            let s = s.declare_null(source).remove_last_pop().assign_top(source);
            let s = s.push_int(0);
            let s = s.declare_null(index).remove_last_pop().assign_top(index);
            let start = s.here();
            let s = gen_length_test(s, index, source);
            let jump = s.last_position;
            let s = gen_item(s.open_loop(label, start), index, source);
            let s = match binding {
                ForBinding::Identifier(name) => s.declare_null(
                    name@,
                ).remove_last_pop().assign_top(name@),
                ForBinding::Pattern(p) => gen_pattern(s, p),
            };
            let s = gen_stmts(s, body, 0).continue_here();
            let s = gen_next_item(s, index, start);
            let end = s.here();
            s.patch(jump, 0, end).close_loop(end).emit0(Opcode::OpNull)
        },
        _ => s,
    }
}

pub open spec fn gen_for_in(
    s: CompilerView,
    stmt: Statement,
    label: Option<Seq<char>>,
) -> CompilerView
    decreases stmt, 4int, 0int, 1int,
{
    for_in_rule(s, stmt, label)
}

#[verifier::opaque]
pub open spec fn for_in_rule(
    s: CompilerView,
    stmt: Statement,
    label: Option<Seq<char>>,
) -> CompilerView
    decreases stmt, 4int, 0int, 0int,
{
    match stmt {
        Statement::ForIn { var_name, iterable, body } => {
            let source = s.temp("keys"@);
            let s = s.after_temp();
            let index = s.temp("ki"@);
            let s = gen_expr(s.after_temp(), iterable).emit0(Opcode::OpGetKeysIterator);
            let s = s.assign_top(source).push_int(0).assign_top(index);
            let start = s.here();
            let s = gen_length_test(s, index, source);
            let jump = s.last_position;
            let s = gen_item(s.open_loop(label, start), index, source).assign_top(var_name@);
            let s = gen_stmts(s, body, 0).remove_last_pop().continue_here();
            let s = gen_next_item(s, index, start);
            let end = s.here();
            s.patch(jump, 0, end).close_loop(end).emit0(Opcode::OpNull)
        },
        _ => s,
    }
}

/// The tests of the cases from position `i` on, each followed by a jump to its
/// body. Returns the positions of those jumps as well.
pub open spec fn gen_case_tests(
    s: CompilerView,
    cases: Vec<SwitchCase>,
    subject: Slot,
    i: int,
    jumps: Seq<usize>,
) -> (CompilerView, Seq<usize>)
    decreases cases, 1int, cases@.len() - i, 1int,
{
    case_tests_rule(s, cases, subject, i, jumps)
}

#[verifier::opaque]
pub open spec fn case_tests_rule(
    s: CompilerView,
    cases: Vec<SwitchCase>,
    subject: Slot,
    i: int,
    jumps: Seq<usize>,
) -> (CompilerView, Seq<usize>)
    decreases cases, 1int, cases@.len() - i, 0int,
{
    if i < 0 || i >= cases@.len() {
        (s, jumps)
    } else {
        match cases@[i].test {
            Some(test) => {
                let s = gen_expr(s.load(subject), test).emit0(Opcode::OpStrictEqual);
                let skip = s.here();
                let s = s.emit1(Opcode::OpJumpNotTruthy, PLACEHOLDER);
                let jump = s.here();
                let s = s.emit1(Opcode::OpJump, PLACEHOLDER);
                let s = s.patch(skip, 0, s.here());
                gen_case_tests(s, cases, subject, i + 1, jumps.push(jump))
            },
            None => gen_case_tests(s, cases, subject, i + 1, jumps),
        }
    }
}

/// The bodies of the cases from position `i` on, one after the other. Returns
/// where each body starts as well.
pub open spec fn gen_case_bodies(
    s: CompilerView,
    cases: Vec<SwitchCase>,
    i: int,
    starts: Seq<usize>,
) -> (CompilerView, Seq<usize>)
    decreases cases, 1int, cases@.len() - i, 1int,
{
    case_bodies_rule(s, cases, i, starts)
}

#[verifier::opaque]
pub open spec fn case_bodies_rule(
    s: CompilerView,
    cases: Vec<SwitchCase>,
    i: int,
    starts: Seq<usize>,
) -> (CompilerView, Seq<usize>)
    decreases cases, 1int, cases@.len() - i, 0int,
{
    if i < 0 || i >= cases@.len() {
        (s, starts)
    } else {
        gen_case_bodies(
            gen_stmts(s, cases@[i].consequent, 0),
            cases,
            i + 1,
            starts.push(s.here()),
        )
    }
}

/// Let the jumps of the cases from position `i` on go to their bodies; `j` is
/// the first of those jumps.
#[verifier::opaque]
pub open spec fn patch_cases(
    s: CompilerView,
    cases: Seq<SwitchCase>,
    i: int,
    jumps: Seq<usize>,
    j: int,
    starts: Seq<usize>,
) -> CompilerView
    decreases cases.len() - i,
{
    if i < 0 || i >= cases.len() {
        s
    } else if cases[i].test is Some {
        patch_cases(s.patch(jumps[j], 0, starts[i]), cases, i + 1, jumps, j + 1, starts)
    } else {
        patch_cases(s, cases, i + 1, jumps, j, starts)
    }
}

/// The position of the last case without a test below `n`.
pub open spec fn default_case(cases: Seq<SwitchCase>, n: int) -> Option<int>
    decreases n,
{
    if n <= 0 {
        None
    } else if cases[n - 1].test is None {
        Some(n - 1)
    } else {
        default_case(cases, n - 1)
    }
}

pub open spec fn gen_switch(
    s: CompilerView,
    stmt: Statement,
    label: Option<Seq<char>>,
) -> CompilerView
    decreases stmt, 4int, 0int, 1int,
{
    switch_rule(s, stmt, label)
}

#[verifier::opaque]
pub open spec fn switch_rule(
    s: CompilerView,
    stmt: Statement,
    label: Option<Seq<char>>,
) -> CompilerView
    decreases stmt, 4int, 0int, 0int,
{
    match stmt {
        Statement::Switch { discriminant, cases } => {
            let s = s.open_loop(label, 0);
            let subject_name = s.temp("switch"@);
            let s = gen_expr(s.after_temp(), discriminant);
            let (s, idx) = s.binding_slot(subject_name);
            let subject = if s.is_function_scope {
                Slot::Local(idx)
            } else {
                Slot::Global(idx)
            };
            let (s, jumps) = gen_case_tests(s.store(subject), cases, subject, 0, Seq::empty());
            let otherwise = s.here();
            let s = s.emit1(Opcode::OpJump, PLACEHOLDER);
            let (s, starts) = gen_case_bodies(s, cases, 0, Seq::empty());
            let end = s.here();
            let s = patch_cases(s, cases@, 0, jumps, 0, starts);
            let s = match default_case(cases@, cases@.len() as int) {
                Some(d) => s.patch(otherwise, 0, starts[d]),
                None => s.patch(otherwise, 0, end),
            };
            s.close_switch(end)
        },
        _ => s,
    }
}

pub open spec fn gen_throw(s: CompilerView, value: Expression) -> CompilerView
    decreases value, 8int, 0int, 1int,
{
    throw_rule(s, value)
}

#[verifier::opaque]
pub open spec fn throw_rule(s: CompilerView, value: Expression) -> CompilerView
    decreases value, 8int, 0int, 0int,
{
    gen_expr(s, value).throw_top()
}

/// A `catch` block. Where a `finally` block follows, an exception that is thrown in
/// it, or not caught, waits for that block.
pub open spec fn gen_catch(
    s: CompilerView,
    stmt: Statement,
    exception: Seq<char>,
    thrown: Seq<char>,
) -> CompilerView
    decreases stmt, 3int, 0int, 1int,
{
    catch_rule(s, stmt, exception, thrown)
}

#[verifier::opaque]
pub open spec fn catch_rule(
    s: CompilerView,
    stmt: Statement,
    exception: Seq<char>,
    thrown: Seq<char>,
) -> CompilerView
    decreases stmt, 3int, 0int, 0int,
{
    match stmt {
        Statement::Try { catch_param, catch_block, finally_block, .. } => match catch_block {
            Some(block) => {
                let s = if finally_block is Some {
                    s.open_try(exception)
                } else {
                    s
                };
                let s = match catch_param {
                    Some(p) => s.push_name(exception).assign_top(p@),
                    None => s,
                };
                let s = gen_stmts(s, block, 0).remove_last_pop();
                if finally_block is Some {
                    let over = s.here();
                    let s = s.emit1(Opcode::OpJump, PLACEHOLDER).close_try();
                    let s = s.emit0(Opcode::OpTrue).assign_top(thrown);
                    s.patch(over, 0, s.here())
                } else {
                    s
                }
            },
            None => if finally_block is Some {
                s.emit0(Opcode::OpTrue).assign_top(thrown)
            } else {
                s
            },
        },
        _ => s,
    }
}

pub open spec fn gen_try(s: CompilerView, stmt: Statement) -> CompilerView
    decreases stmt, 4int, 0int, 1int,
{
    try_rule(s, stmt)
}

#[verifier::opaque]
pub open spec fn try_rule(s: CompilerView, stmt: Statement) -> CompilerView
    decreases stmt, 4int, 0int, 0int,
{
    match stmt {
        Statement::Try { try_block, catch_param, catch_block, finally_block } => {
            let exception = s.temp("exc"@);
            let s = s.after_temp().emit0(Opcode::OpNull).assign_top(exception);
            let (s, thrown) = if finally_block is Some {
                let thrown = s.temp("exc_flag"@);
                (s.after_temp().emit0(Opcode::OpFalse).assign_top(thrown), thrown)
            } else {
                (s, Seq::empty())
            };
            let s = s.open_try(exception);
            let s = gen_stmts(s, try_block, 0).remove_last_pop();
            let over = s.here();
            let s = s.emit1(Opcode::OpJump, PLACEHOLDER);
            let s = s.close_try();
            let s = gen_catch(s, stmt, exception, thrown);
            let finally_start = s.here();
            match finally_block {
                Some(block) => {
                    let s = gen_stmts(s, block, 0).remove_last_pop().push_name(thrown);
                    let skip = s.here();
                    let s = s.emit1(Opcode::OpJumpNotTruthy, PLACEHOLDER);
                    let s = s.push_name(exception).throw_top();
                    let s = s.patch(skip, 0, s.here());
                    s.patch(over, 0, finally_start).emit0(Opcode::OpNull)
                },
                None => s.patch(over, 0, s.here()).emit0(Opcode::OpNull),
            }
        },
        _ => s,
    }
}

// Destructuring

/// Bind the names of a pattern to the parts of the value on top of the stack.
pub open spec fn gen_pattern(s: CompilerView, p: BindingPattern) -> CompilerView
    decreases p, 4int, 0int, 1int,
{
    pattern_rule(s, p)
}

#[verifier::opaque]
pub open spec fn pattern_rule(s: CompilerView, p: BindingPattern) -> CompilerView
    decreases p, 4int, 0int, 0int,
{
    let source = s.temp("destr"@);
    let s = s.after_temp().assign_top(source);
    match p {
        BindingPattern::Array(items) => gen_array_items(s, items, source, 0),
        BindingPattern::Object(items) => gen_object_items(s, items, source, 0),
    }
}

pub open spec fn gen_array_items(
    s: CompilerView,
    items: Vec<ArrayBindingItem>,
    source: Seq<char>,
    i: int,
) -> CompilerView
    decreases items, 1int, items@.len() - i, 1int,
{
    array_items_rule(s, items, source, i)
}

#[verifier::opaque]
pub open spec fn array_items_rule(
    s: CompilerView,
    items: Vec<ArrayBindingItem>,
    source: Seq<char>,
    i: int,
) -> CompilerView
    decreases items, 1int, items@.len() - i, 0int,
{
    if i < 0 || i >= items@.len() {
        s
    } else {
        let s = match items@[i] {
            ArrayBindingItem::Hole => s,
            ArrayBindingItem::Binding { target, default_value } => {
                let s = s.push_element(source, i);
                let s = match default_value {
                    Some(d) => gen_default(s, d),
                    None => s,
                };
                gen_target(s, target)
            },
            ArrayBindingItem::Rest { name } => s.push_rest(source, i).assign_top(name@),
        };
        gen_array_items(s, items, source, i + 1)
    }
}

pub open spec fn gen_object_items(
    s: CompilerView,
    items: Vec<ObjectBindingItem>,
    source: Seq<char>,
    i: int,
) -> CompilerView
    decreases items, 2int, items@.len() - i, 1int,
{
    object_items_rule(s, items, source, i)
}

#[verifier::opaque]
pub open spec fn object_items_rule(
    s: CompilerView,
    items: Vec<ObjectBindingItem>,
    source: Seq<char>,
    i: int,
) -> CompilerView
    decreases items, 2int, items@.len() - i, 0int,
{
    if i < 0 || i >= items@.len() {
        s
    } else {
        let item = items@[i];
        let s = if item.is_rest {
            let s = gen_item_keys(s.push_name(source), items, 0);
            let s = s.emit1(Opcode::OpObjectRest, kept_items(items@, items@.len() as int) as u16);
            match item.target {
                BindingTarget::Identifier(name) => s.assign_top(name@),
                BindingTarget::Pattern(_) => s.fail("object rest target must be identifier"@),
            }
        } else {
            let s = gen_expr(s.push_name(source), item.key).emit0(Opcode::OpIndex);
            let s = match item.default_value {
                Some(d) => gen_default(s, d),
                None => s,
            };
            gen_target(s, item.target)
        };
        gen_object_items(s, items, source, i + 1)
    }
}

/// Push the keys of the items from position `i` on that are not the rest.
pub open spec fn gen_item_keys(
    s: CompilerView,
    items: Vec<ObjectBindingItem>,
    i: int,
) -> CompilerView
    decreases items, 1int, items@.len() - i, 1int,
{
    item_keys_rule(s, items, i)
}

#[verifier::opaque]
pub open spec fn item_keys_rule(
    s: CompilerView,
    items: Vec<ObjectBindingItem>,
    i: int,
) -> CompilerView
    decreases items, 1int, items@.len() - i, 0int,
{
    if i < 0 || i >= items@.len() {
        s
    } else if items@[i].is_rest {
        gen_item_keys(s, items, i + 1)
    } else {
        gen_item_keys(gen_expr(s, items@[i].key), items, i + 1)
    }
}

/// How many of the first `n` items are not the rest.
pub open spec fn kept_items(items: Seq<ObjectBindingItem>, n: int) -> nat
    decreases n,
{
    if n <= 0 {
        0
    } else {
        kept_items(items, n - 1) + if items[n - 1].is_rest {
            0nat
        } else {
            1
        }
    }
}

pub open spec fn gen_target(s: CompilerView, t: BindingTarget) -> CompilerView
    decreases t, 4int, 0int, 1int,
{
    target_rule(s, t)
}

#[verifier::opaque]
pub open spec fn target_rule(s: CompilerView, t: BindingTarget) -> CompilerView
    decreases t, 4int, 0int, 0int,
{
    match t {
        BindingTarget::Identifier(name) => s.assign_top(name@),
        BindingTarget::Pattern(p) => gen_pattern(s, *p),
    }
}

/// Replace an undefined top of the stack by a default.
pub open spec fn gen_default(s: CompilerView, default: Expression) -> CompilerView
    decreases default, 8int, 0int, 1int,
{
    default_rule(s, default)
}

#[verifier::opaque]
pub open spec fn default_rule(s: CompilerView, default: Expression) -> CompilerView
    decreases default, 8int, 0int, 0int,
{
    let held = s.temp("destr_val"@);
    let s = s.after_temp().assign_top(held).push_name(held).emit0(Opcode::OpTypeof);
    let s = s.push_string("undefined"@).emit0(Opcode::OpEqual);
    let skip = s.here();
    let s = s.emit1(Opcode::OpJumpNotTruthy, PLACEHOLDER);
    let s = gen_expr(s, default).assign_top(held);
    s.patch(skip, 0, s.here()).push_name(held)
}

// Expressions

pub open spec fn gen_exprs(s: CompilerView, items: Vec<Expression>, i: int) -> CompilerView
    decreases items, 1int, items@.len() - i, 1int,
{
    exprs_rule(s, items, i)
}

#[verifier::opaque]
pub open spec fn exprs_rule(s: CompilerView, items: Vec<Expression>, i: int) -> CompilerView
    decreases items, 1int, items@.len() - i, 0int,
{
    if i < 0 || i >= items@.len() {
        s
    } else {
        gen_exprs(gen_expr(s, items@[i]), items, i + 1)
    }
}

/// The items from position `i` on, of which only the last leaves its value.
pub open spec fn gen_sequence(s: CompilerView, items: Vec<Expression>, i: int) -> CompilerView
    decreases items, 1int, items@.len() - i, 1int,
{
    sequence_rule(s, items, i)
}

#[verifier::opaque]
pub open spec fn sequence_rule(s: CompilerView, items: Vec<Expression>, i: int) -> CompilerView
    decreases items, 1int, items@.len() - i, 0int,
{
    if i < 0 || i >= items@.len() {
        s
    } else {
        let s = gen_expr(s, items@[i]);
        gen_sequence(
            if i + 1 < items@.len() {
                s.emit0(Opcode::OpPop)
            } else {
                s
            },
            items,
            i + 1,
        )
    }
}

/// Append the items from position `i` on to the array on top of the stack.
pub open spec fn gen_appends(s: CompilerView, items: Vec<Expression>, i: int) -> CompilerView
    decreases items, 1int, items@.len() - i, 1int,
{
    appends_rule(s, items, i)
}

#[verifier::opaque]
pub open spec fn appends_rule(s: CompilerView, items: Vec<Expression>, i: int) -> CompilerView
    decreases items, 1int, items@.len() - i, 0int,
{
    if i < 0 || i >= items@.len() {
        s
    } else {
        let s = match items@[i] {
            Expression::Spread { value } => gen_expr(s, *value).emit0(Opcode::OpAppendSpread),
            _ => gen_expr(s, items@[i]).emit0(Opcode::OpAppendElement),
        };
        gen_appends(s, items, i + 1)
    }
}

/// An expression, unless the program was rejected already.
pub open spec fn gen_expr(s: CompilerView, e: Expression) -> CompilerView
    decreases e, 7int, 0int, 0int,
{
    if s.err is Some {
        s
    } else {
        expr_rule(s, e)
    }
}

#[verifier::opaque]
pub open spec fn expr_rule(s: CompilerView, e: Expression) -> CompilerView
    decreases e, 6int, 0int, 0int,
{
    match e {
        Expression::Integer(v) => s.push_int(v),
        Expression::Float(bits) => s.push_float(bits),
        Expression::String(v) => s.push_string(v@),
        Expression::RegExp { pattern, flags } => s.push_object(
            ObjectView::RegExp { pattern: pattern@, flags: flags@ },
        ),
        Expression::Boolean(v) => s.emit0(
            if v {
                Opcode::OpTrue
            } else {
                Opcode::OpFalse
            },
        ),
        Expression::Null => s.emit0(Opcode::OpNull),
        Expression::Identifier(name) => s.push_name(name@),
        Expression::This => s.emit1(Opcode::OpGetLocal, 0),
        Expression::Super => s.emit0(Opcode::OpSuper),
        Expression::NewTarget => s.emit0(Opcode::OpNewTarget),
        Expression::ImportMeta => s.emit0(Opcode::OpImportMeta),
        Expression::Array(items) => if has_spread(items@) {
            gen_appends(s.emit1(Opcode::OpArray, 0), items, 0)
        } else {
            gen_exprs(s, items, 0).emit1(Opcode::OpArray, items@.len() as u16)
        },
        Expression::Hash(entries) => {
            let s = gen_pairs(s, entries, 0);
            let s = s.emit1(
                Opcode::OpHash,
                ((plain_entries(entries@, entries@.len() as int) % 0x8000) * 2) as u16,
            );
            gen_accessors(s, entries, 0)
        },
        Expression::Prefix { operator, right } => gen_prefix(gen_expr(s, *right), operator@),
        Expression::Typeof { value } => {
            let s = match *value {
                Expression::Identifier(name) => if s.locals.has(name@) || s.globals.has(name@)
                    || global_member(name@) is Some || s.is_function_scope {
                    gen_expr(s, *value)
                } else {
                    s.emit0(Opcode::OpUndefined)
                },
                _ => gen_expr(s, *value),
            };
            s.emit0(Opcode::OpTypeof)
        },
        Expression::Void { value } => gen_expr(s, *value).emit0(Opcode::OpPop).emit0(
            Opcode::OpUndefined,
        ),
        Expression::Delete { value } => gen_delete(s, *value),
        Expression::Await { value } => gen_expr(s, *value).emit0(Opcode::OpAwait),
        Expression::Yield { value, .. } => gen_expr(s, *value).emit0(Opcode::OpYield),
        Expression::Spread { .. } => s.fail("spread expression is only valid in array literals"@),
        Expression::Infix { left, operator, right } => if operator@ == ","@ {
            gen_expr(gen_expr(s, *left).emit0(Opcode::OpPop), *right)
        } else if operator@ == "&&"@ || operator@ == "||"@ || operator@ == "??"@ {
            gen_logical(s, e)
        } else {
            let s = gen_expr(gen_expr(s, *left), *right);
            match infix_opcode(operator@) {
                Some(op) => s.emit0(op),
                None => s.fail("unsupported infix operator "@ + operator@),
            }
        },
        Expression::Sequence(items) => gen_sequence(s, items, 0),
        Expression::Assign { .. } => gen_assign(s, e),
        Expression::Update { .. } => gen_update(s, e),
        Expression::If { .. } => gen_if_value(s, e),
        Expression::Index { left, index } => match *index {
            Expression::String(prop) => match *left {
                Expression::Identifier(name) => s.push_property(name@, prop@),
                _ => gen_expr(s, *left).get_property(prop@),
            },
            _ => gen_expr(gen_expr(s, *left), *index).emit0(Opcode::OpIndex),
        },
        Expression::OptionalIndex { left, index } => {
            let held = s.temp("opt"@);
            let s = gen_expr(s.after_temp(), *left).assign_top(held);
            let s = s.push_name(held).emit0(Opcode::OpIsNullish);
            let present = s.here();
            let s = s.emit1(Opcode::OpJumpNotTruthy, PLACEHOLDER).emit0(Opcode::OpUndefined);
            let absent = s.here();
            let s = s.emit1(Opcode::OpJump, PLACEHOLDER);
            let s = s.patch(present, 0, s.here()).push_name(held);
            let s = gen_expr(s, *index).emit0(Opcode::OpIndex);
            s.patch(absent, 0, s.here())
        },
        Expression::OptionalCall { function, arguments } => {
            let held = s.temp("optcall"@);
            let s = gen_expr(s.after_temp(), *function).assign_top(held);
            let s = s.push_name(held).emit0(Opcode::OpIsNullish);
            let present = s.here();
            let s = s.emit1(Opcode::OpJumpNotTruthy, PLACEHOLDER).emit0(Opcode::OpUndefined);
            let absent = s.here();
            let s = s.emit1(Opcode::OpJump, PLACEHOLDER);
            let s = s.patch(present, 0, s.here()).push_name(held);
            let s = if has_spread(arguments@) {
                gen_appends(s.emit1(Opcode::OpArray, 0), arguments, 0).emit0(
                    Opcode::OpCallSpread,
                )
            } else {
                gen_exprs(s, arguments, 0).emit1(Opcode::OpCall, arguments@.len() as u16)
            };
            s.patch(absent, 0, s.here())
        },
        Expression::Call { function, arguments } => if has_spread(arguments@) {
            let s = gen_expr(s, *function).emit1(Opcode::OpArray, 0);
            gen_appends(s, arguments, 0).emit0(Opcode::OpCallSpread)
        } else {
            match called_global(s, *function) {
                Some(slot) => gen_exprs(s, arguments, 0).emit(
                    Opcode::OpCallGlobal,
                    seq![slot, arguments@.len() as u16],
                ),
                None => gen_exprs(gen_expr(s, *function), arguments, 0).emit1(
                    Opcode::OpCall,
                    arguments@.len() as u16,
                ),
            }
        },
        Expression::New { callee, arguments } => {
            let s = gen_expr(s, *callee);
            if has_spread(arguments@) {
                gen_appends(s.emit1(Opcode::OpArray, 0), arguments, 0).emit0(
                    Opcode::OpNewSpread,
                )
            } else {
                gen_exprs(s, arguments, 0).emit1(Opcode::OpNew, arguments@.len() as u16)
            }
        },
        Expression::Function { parameters, body, is_async, is_generator, .. } => {
            let (s, f) = gen_function(s, parameters, body, true, is_async, is_generator);
            s.push_object(ObjectView::Function(f))
        },
        Expression::Class { name, extends, members } => gen_class_value(
            s,
            name,
            extends,
            members,
        ),
    }
}

/// The slot of the global that is called by its name.
pub open spec fn called_global(s: CompilerView, function: Expression) -> Option<u16> {
    match function {
        Expression::Identifier(name) => known_global(s, name@),
        _ => None,
    }
}

/// Apply a prefix operator to the top of the stack.
#[verifier::opaque]
pub open spec fn gen_prefix(
    s: CompilerView,
    operator: Seq<char>,
) -> CompilerView {
    if operator == "!"@ {
        s.emit0(Opcode::OpBang)
    } else if operator == "-"@ {
        s.emit0(Opcode::OpMinus)
    } else if operator == "+"@ {
        s.emit0(Opcode::OpUnaryPlus)
    } else if operator == "~"@ {
        s.push_int(-1i64).emit0(Opcode::OpBitwiseXor)
    } else {
        s.fail("unsupported prefix operator "@ + operator)
    }
}

pub open spec fn gen_logical(s: CompilerView, e: Expression) -> CompilerView
    decreases e, 4int, 0int, 1int,
{
    logical_rule(s, e)
}

#[verifier::opaque]
pub open spec fn logical_rule(s: CompilerView, e: Expression) -> CompilerView
    decreases e, 4int, 0int, 0int,
{
    match e {
        Expression::Infix { left, operator, right } => {
            let held = s.temp("logic"@);
            let s = gen_expr(s.after_temp(), *left).assign_top(held).push_name(held);
            if operator@ == "||"@ {
                let eval_right = s.here();
                let s = s.emit1(Opcode::OpJumpNotTruthy, PLACEHOLDER).push_name(held);
                let end = s.here();
                let s = s.emit1(Opcode::OpJump, PLACEHOLDER);
                let s = gen_expr(s.patch(eval_right, 0, s.here()), *right);
                s.patch(end, 0, s.here())
            } else {
                let s = if operator@ == "&&"@ {
                    s
                } else {
                    s.emit0(Opcode::OpIsNullish)
                };
                let use_left = s.here();
                let s = s.emit1(Opcode::OpJumpNotTruthy, PLACEHOLDER);
                let s = gen_expr(s, *right);
                let end = s.here();
                let s = s.emit1(Opcode::OpJump, PLACEHOLDER);
                let s = s.patch(use_left, 0, s.here()).push_name(held);
                s.patch(end, 0, s.here())
            }
        },
        _ => s,
    }
}

/// An `if` whose value is used.
pub open spec fn gen_if_value(s: CompilerView, e: Expression) -> CompilerView
    decreases e, 4int, 0int, 1int,
{
    if_value_rule(s, e)
}

#[verifier::opaque]
pub open spec fn if_value_rule(s: CompilerView, e: Expression) -> CompilerView
    decreases e, 4int, 0int, 0int,
{
    match e {
        Expression::If { condition, consequence, alternative } => {
            let (s, jump, offset) = gen_condition(s, *condition);
            let s = gen_stmts(s, consequence, 0).remove_last_pop();
            let over = s.here();
            let s = s.emit1(Opcode::OpJump, PLACEHOLDER);
            let s = s.patch(jump, offset, s.here());
            let s = match alternative {
                Some(alt) => gen_stmts(s, alt, 0).remove_last_pop(),
                None => s.emit0(Opcode::OpNull),
            };
            s.patch(over, 0, s.here())
        },
        _ => s,
    }
}

pub open spec fn gen_delete(s: CompilerView, value: Expression) -> CompilerView
    decreases value, 8int, 0int, 1int,
{
    delete_rule(s, value)
}

#[verifier::opaque]
pub open spec fn delete_rule(s: CompilerView, value: Expression) -> CompilerView
    decreases value, 8int, 0int, 0int,
{
    match value {
        Expression::Index { left, index } => match *left {
            Expression::Identifier(name) => if s.locals.has(name@) || s.globals.has(name@) {
                let (s, slot) = s.name_slot(name@);
                gen_expr(s.load(slot), *index).emit0(Opcode::OpDeleteProperty).store(
                    slot,
                ).emit0(Opcode::OpTrue)
            } else {
                s.emit0(Opcode::OpTrue)
            },
            _ => gen_expr(gen_expr(s, *left), *index).emit0(Opcode::OpDeleteProperty).emit0(
                Opcode::OpPop,
            ).emit0(Opcode::OpTrue),
        },
        Expression::Identifier(_) => s.emit0(Opcode::OpFalse),
        _ => gen_expr(s, value).emit0(Opcode::OpPop).emit0(Opcode::OpTrue),
    }
}

// Object literals

/// The number of entries among the first `n` that are not accessors.
pub open spec fn plain_entries(entries: Seq<HashEntry>, n: int) -> nat
    decreases n,
{
    if n <= 0 {
        0
    } else {
        plain_entries(entries, n - 1) + if entries[n - 1] is Getter || entries[n - 1] is Setter {
            0nat
        } else {
            1
        }
    }
}

/// Push key and value of each plain entry from position `i` on.
pub open spec fn gen_pairs(s: CompilerView, entries: Vec<HashEntry>, i: int) -> CompilerView
    decreases entries, 1int, entries@.len() - i, 1int,
{
    pairs_rule(s, entries, i)
}

#[verifier::opaque]
pub open spec fn pairs_rule(s: CompilerView, entries: Vec<HashEntry>, i: int) -> CompilerView
    decreases entries, 1int, entries@.len() - i, 0int,
{
    if i < 0 || i >= entries@.len() {
        s
    } else {
        let s = match entries@[i] {
            HashEntry::KeyValue { key, value } => gen_expr(gen_expr(s, key), value),
            HashEntry::Spread(value) => gen_expr(s.push_string("__fl_rest__"@), value),
            HashEntry::Method { key, parameters, body, is_async, is_generator } => {
                let s = gen_expr(s, key);
                let (s, f) = gen_function(s, parameters, body, false, is_async, is_generator);
                s.push_object(ObjectView::Function(f))
            },
            _ => s,
        };
        gen_pairs(s, entries, i + 1)
    }
}

/// The name of an accessor, where it is written out.
pub open spec fn accessor_name(key: Expression) -> Option<Seq<char>> {
    match key {
        Expression::String(name) => Some(name@),
        Expression::Identifier(name) => Some(name@),
        _ => None,
    }
}

/// Define each getter and setter from position `i` on.
pub open spec fn gen_accessors(s: CompilerView, entries: Vec<HashEntry>, i: int) -> CompilerView
    decreases entries, 1int, entries@.len() - i, 1int,
{
    accessors_rule(s, entries, i)
}

#[verifier::opaque]
pub open spec fn accessors_rule(s: CompilerView, entries: Vec<HashEntry>, i: int) -> CompilerView
    decreases entries, 1int, entries@.len() - i, 0int,
{
    if i < 0 || i >= entries@.len() {
        s
    } else {
        let s = match entries@[i] {
            HashEntry::Getter { key, body } => match accessor_name(key) {
                Some(name) => {
                    let (s, f) = gen_body(s, Seq::empty(), None, body, true, false, false);
                    define_accessor(s, f, name, 0)
                },
                None => s.fail("computed getter/setter keys not yet supported in stack compiler"@),
            },
            HashEntry::Setter { key, parameter, body } => match accessor_name(key) {
                Some(name) => {
                    let p = setter_parameters(parameter);
                    if p.err is Some {
                        s.fail(p.err->0)
                    } else {
                        let (s, f) = gen_body(s, p.names, p.rest, body, true, false, false);
                        define_accessor(s, f, name, 1)
                    }
                },
                None => s.fail("computed getter/setter keys not yet supported in stack compiler"@),
            },
            _ => s,
        };
        gen_accessors(s, entries, i + 1)
    }
}

/// The parameter list of a setter.
pub open spec fn setter_parameters(parameter: String) -> Parameters {
    parameters(seq![parameter], 1)
}

/// Attach a function to the hash on top of the stack.
#[verifier::opaque]
pub open spec fn define_accessor(
    s: CompilerView,
    f: FunctionView,
    name: Seq<char>,
    kind: u16,
) -> CompilerView {
    let (s, idx) = s.push_object(ObjectView::Function(f)).add_constant(ObjectView::String(name));
    s.emit(Opcode::OpDefineAccessor, seq![idx, kind])
}

// Assignment

pub open spec fn gen_assign(s: CompilerView, e: Expression) -> CompilerView
    decreases e, 5int, 1int, 1int,
{
    assign_rule(s, e)
}

#[verifier::opaque]
pub open spec fn assign_rule(s: CompilerView, e: Expression) -> CompilerView
    decreases e, 5int, 1int, 0int,
{
    match e {
        Expression::Assign { left, operator, right } => match *left {
            Expression::Identifier(name) => gen_name_assign(s, name@, operator@, *right),
            Expression::Index { .. } => gen_index_assign(s, e, operator@),
            Expression::Array(_) => if operator@ != "="@ {
                s.fail("only '=' supported for array destructuring assignment"@)
            } else {
                gen_destructure(gen_expr(s, *right), *left)
            },
            Expression::Hash(_) => if operator@ != "="@ {
                s.fail("only '=' supported for object destructuring assignment"@)
            } else {
                gen_destructure(gen_expr(s, *right), *left)
            },
            _ => s.fail("invalid assignment target"@),
        },
        _ => s,
    }
}

pub open spec fn gen_name_assign(
    s: CompilerView,
    name: Seq<char>,
    operator: Seq<char>,
    right: Expression,
) -> CompilerView
    decreases right, 9int, 0int, 1int,
{
    name_assign_rule(s, name, operator, right)
}

#[verifier::opaque]
pub open spec fn name_assign_rule(
    s: CompilerView,
    name: Seq<char>,
    operator: Seq<char>,
    right: Expression,
) -> CompilerView
    decreases right, 9int, 0int, 0int,
{
    if s.const_bindings.contains(name) {
        s.fail("Assignment to constant variable '"@ + name + "'"@)
    } else if operator == "="@ {
        gen_expr(s, right).set_name(name)
    } else if is_logical_assignment(operator) {
        gen_logical_assign(s, name, operator, right)
    } else {
        match compound_opcode(operator) {
            Some(op) => {
                let (s, slot) = s.name_slot(name);
                gen_expr(s.load(slot), right).emit0(op).store(slot).load(slot)
            },
            None => s.fail("unsupported assignment operator "@ + operator),
        }
    }
}

pub open spec fn gen_logical_assign(
    s: CompilerView,
    name: Seq<char>,
    operator: Seq<char>,
    right: Expression,
) -> CompilerView
    decreases right, 8int, 0int, 1int,
{
    logical_assign_rule(s, name, operator, right)
}

#[verifier::opaque]
pub open spec fn logical_assign_rule(
    s: CompilerView,
    name: Seq<char>,
    operator: Seq<char>,
    right: Expression,
) -> CompilerView
    decreases right, 8int, 0int, 0int,
{
    let (s, slot) = s.name_slot(name);
    let s = s.load(slot);
    if operator == "&&="@ {
        let keep = s.here();
        let s = gen_expr(s.emit1(Opcode::OpJumpNotTruthy, PLACEHOLDER), right).store(slot).load(
            slot,
        );
        let end = s.here();
        let s = s.emit1(Opcode::OpJump, PLACEHOLDER);
        let s = s.patch(keep, 0, s.here()).load(slot);
        s.patch(end, 0, s.here())
    } else {
        let s = if operator == "||="@ {
            s
        } else {
            s.emit0(Opcode::OpIsNullish).emit0(Opcode::OpBang)
        };
        let eval = s.here();
        let s = s.emit1(Opcode::OpJumpNotTruthy, PLACEHOLDER).load(slot);
        let end = s.here();
        let s = s.emit1(Opcode::OpJump, PLACEHOLDER);
        let s = gen_expr(s.patch(eval, 0, s.here()), right).store(slot).load(slot);
        s.patch(end, 0, s.here())
    }
}

/// The object and key that an assignment or update stores to.
pub open spec fn index_target(e: Expression) -> Option<(Expression, Expression)> {
    match e {
        Expression::Assign { left, .. } => match *left {
            Expression::Index { left: object, index } => Some((*object, *index)),
            _ => None,
        },
        Expression::Update { target, .. } => match *target {
            Expression::Index { left: object, index } => Some((*object, *index)),
            _ => None,
        },
        _ => None,
    }
}

/// The right side of an assignment; the number one for an update.
pub open spec fn gen_right(s: CompilerView, e: Expression) -> CompilerView
    decreases e, 2int, 0int, 1int,
{
    right_rule(s, e)
}

#[verifier::opaque]
pub open spec fn right_rule(s: CompilerView, e: Expression) -> CompilerView
    decreases e, 2int, 0int, 0int,
{
    match e {
        Expression::Assign { right, .. } => gen_expr(s, *right),
        _ => s.push_int(1),
    }
}

/// The value to be stored: the right side, or the result of the operator on
/// what is there and the right side.
pub open spec fn gen_new_value(
    s: CompilerView,
    e: Expression,
    slot: Slot,
    op: Option<Opcode>,
) -> CompilerView
    decreases e, 3int, 0int, 1int,
{
    new_value_rule(s, e, slot, op)
}

#[verifier::opaque]
pub open spec fn new_value_rule(
    s: CompilerView,
    e: Expression,
    slot: Slot,
    op: Option<Opcode>,
) -> CompilerView
    decreases e, 3int, 0int, 0int,
{
    match (op, index_target(e)) {
        (Some(op), Some((_, index))) => {
            let s = gen_expr(s.load(slot), index).emit0(Opcode::OpIndex);
            gen_right(s, e).emit0(op)
        },
        _ => gen_right(s, e),
    }
}

/// Store to an element of a variable, by way of a hidden variable.
pub open spec fn gen_element_store(
    s: CompilerView,
    e: Expression,
    slot: Slot,
    op: Option<Opcode>,
    prefix: Seq<char>,
) -> CompilerView
    decreases e, 4int, 0int, 1int,
{
    element_store_rule(s, e, slot, op, prefix)
}

#[verifier::opaque]
pub open spec fn element_store_rule(
    s: CompilerView,
    e: Expression,
    slot: Slot,
    op: Option<Opcode>,
    prefix: Seq<char>,
) -> CompilerView
    decreases e, 4int, 0int, 0int,
{
    match index_target(e) {
        None => s,
        Some((_, index)) => {
            let s = gen_new_value(s, e, slot, op);
            let held = s.temp(prefix);
            let s = s.after_temp().assign_top(held).load(slot);
            let s = gen_expr(s, index).push_name(held).emit0(Opcode::OpSetIndex);
            gen_expr(s.store(slot).load(slot), index).emit0(Opcode::OpIndex)
        },
    }
}

/// Whether a key can be evaluated more than once.
pub open spec fn is_plain_key(index: Expression) -> bool {
    index is String || index is Integer || index is Identifier
}

/// Whether the target of an update can be evaluated once to read it and once to
/// store to it: it is no element, or one whose object and key have no effects.
pub open spec fn may_repeat(target: Expression) -> bool {
    match target {
        Expression::Index { left, index } => (*left is Identifier || *left is This)
            && is_plain_key(*index),
        _ => true,
    }
}

/// Store to an element whose object and key are evaluated once, by way of hidden
/// variables. Where the object comes from a variable, `slot`, it is stored back
/// there. The result is the new value, or the old one if `keeps_old`.
pub open spec fn gen_held_store(
    s: CompilerView,
    e: Expression,
    slot: Option<Slot>,
    op: Option<Opcode>,
    keeps_old: bool,
) -> CompilerView
    decreases e, 4int, 0int, 1int,
{
    held_store_rule(s, e, slot, op, keeps_old)
}

#[verifier::opaque]
pub open spec fn held_store_rule(
    s: CompilerView,
    e: Expression,
    slot: Option<Slot>,
    op: Option<Opcode>,
    keeps_old: bool,
) -> CompilerView
    decreases e, 4int, 0int, 0int,
{
    match index_target(e) {
        None => s,
        Some((object, index)) => {
            let s = gen_expr(s, object);
            let o = s.temp("obj_assign"@);
            let s = gen_expr(s.after_temp().assign_top(o), index);
            let k = s.temp("key_assign"@);
            let s = s.after_temp().assign_top(k);
            let (s, old) = match op {
                Some(op) => {
                    let s = s.push_name(o).push_name(k).emit0(Opcode::OpIndex);
                    let old = s.temp("postfix_old"@);
                    let s = if keeps_old {
                        s.after_temp().assign_top(old).push_name(old)
                    } else {
                        s
                    };
                    (gen_right(s, e).emit0(op), old)
                },
                None => (gen_right(s, e), Seq::empty()),
            };
            let held = s.temp("idx_assign"@);
            let s = s.after_temp().assign_top(held).push_name(o).push_name(k).push_name(held);
            let s = s.emit0(Opcode::OpSetIndex);
            let s = match slot {
                Some(slot) => s.store(slot),
                None => s.emit0(Opcode::OpPop),
            };
            if keeps_old {
                s.push_name(old)
            } else {
                s.push_name(held)
            }
        },
    }
}

/// Assign to an element. `e` is the assignment, or the update that is worth
/// the assignment `operator` by one.
pub open spec fn gen_index_assign(
    s: CompilerView,
    e: Expression,
    operator: Seq<char>,
) -> CompilerView
    decreases e, 5int, 0int, 1int,
{
    index_assign_rule(s, e, operator)
}

#[verifier::opaque]
pub open spec fn index_assign_rule(
    s: CompilerView,
    e: Expression,
    operator: Seq<char>,
) -> CompilerView
    decreases e, 5int, 0int, 0int,
{
    match index_target(e) {
        None => s,
        Some((object, index)) => if operator != "="@ && compound_opcode(operator) is None {
            s.fail("unsupported assignment operator "@ + operator + " for index target"@)
        } else {
            let op = compound_opcode(operator);
            match object {
                Expression::Identifier(name) => {
                    let (s, slot) = s.name_slot(name@);
                    match index {
                        Expression::String(prop) => if operator == "="@ {
                            let (s, idx) = s.add_string(prop@);
                            let cache = s.next_cache_slot;
                            let s = gen_right(s.after_cache_slot(), e);
                            match slot {
                                Slot::Local(n) => s.emit(
                                    Opcode::OpSetLocalProperty,
                                    seq![n, idx, cache],
                                ),
                                Slot::Global(n) => s.emit(
                                    Opcode::OpSetGlobalProperty,
                                    seq![n, idx, cache],
                                ),
                            }
                        } else {
                            gen_element_store(s, e, slot, op, "idx_assign"@)
                        },
                        _ => if is_plain_key(index) {
                            gen_element_store(s, e, slot, op, "idx_assign"@)
                        } else {
                            gen_held_store(s, e, Some(slot), op, false)
                        },
                    }
                },
                Expression::This => if is_plain_key(index) {
                    gen_element_store(s, e, Slot::Local(0), op, "this_assign"@)
                } else {
                    gen_held_store(s, e, Some(Slot::Local(0)), op, false)
                },
                _ => gen_held_store(s, e, None, op, false),
            }
        },
    }
}

pub open spec fn gen_update(s: CompilerView, e: Expression) -> CompilerView
    decreases e, 5int, 2int, 1int,
{
    update_rule(s, e)
}

#[verifier::opaque]
pub open spec fn update_rule(s: CompilerView, e: Expression) -> CompilerView
    decreases e, 5int, 2int, 0int,
{
    match e {
        Expression::Update { target, operator, prefix } => {
            let assign = if operator@ == "++"@ {
                "+="@
            } else {
                "-="@
            };
            if operator@ != "++"@ && operator@ != "--"@ {
                s.fail("unsupported update operator "@ + operator@)
            } else if prefix {
                gen_step(s, e, assign)
            } else if may_repeat(*target) {
                let s = gen_expr(s, *target);
                let old = s.temp("postfix_old"@);
                let s = s.after_temp().assign_top(old);
                gen_step(s, e, assign).emit0(Opcode::OpPop).push_name(old)
            } else {
                let op = compound_opcode(assign);
                match *target {
                    Expression::Index { left, .. } => match *left {
                        Expression::Identifier(name) => {
                            let (s, slot) = s.name_slot(name@);
                            gen_held_store(s, e, Some(slot), op, true)
                        },
                        Expression::This => gen_held_store(
                            s,
                            e,
                            Some(Slot::Local(0)),
                            op,
                            true,
                        ),
                        _ => gen_held_store(s, e, None, op, true),
                    },
                    _ => s,
                }
            }
        },
        _ => s,
    }
}

/// Change the target of an update by one.
pub open spec fn gen_step(s: CompilerView, e: Expression, assign: Seq<char>) -> CompilerView
    decreases e, 5int, 1int, 1int,
{
    step_rule(s, e, assign)
}

#[verifier::opaque]
pub open spec fn step_rule(s: CompilerView, e: Expression, assign: Seq<char>) -> CompilerView
    decreases e, 5int, 1int, 0int,
{
    match e {
        Expression::Update { target, .. } => match *target {
            Expression::Identifier(name) => s.step_name(name@, assign),
            Expression::Index { .. } => gen_index_assign(s, e, assign),
            Expression::Array(_) => s.fail(
                "only '=' supported for array destructuring assignment"@,
            ),
            Expression::Hash(_) => s.fail(
                "only '=' supported for object destructuring assignment"@,
            ),
            _ => s.fail("invalid assignment target"@),
        },
        _ => s,
    }
}

/// Assign the parts of the value on top of the stack to the targets of an
/// array or object literal, and push the value again.
pub open spec fn gen_destructure(s: CompilerView, target: Expression) -> CompilerView
    decreases target, 8int, 0int, 1int,
{
    destructure_rule(s, target)
}

#[verifier::opaque]
pub open spec fn destructure_rule(s: CompilerView, target: Expression) -> CompilerView
    decreases target, 8int, 0int, 0int,
{
    match target {
        Expression::Array(items) => {
            let source = s.temp("arr_assign"@);
            let s = s.after_temp().assign_top(source);
            gen_element_targets(s, items, source, 0).push_name(source)
        },
        Expression::Hash(entries) => {
            let source = s.temp("obj_assign"@);
            let s = s.after_temp().assign_top(source);
            gen_property_targets(s, entries, source, 0).push_name(source)
        },
        _ => s,
    }
}

/// Destructure the top of the stack, by way of a hidden variable, and drop it.
pub open spec fn gen_nested(s: CompilerView, target: Expression, prefix: Seq<char>) -> CompilerView
    decreases target, 9int, 0int, 1int,
{
    nested_rule(s, target, prefix)
}

#[verifier::opaque]
pub open spec fn nested_rule(s: CompilerView, target: Expression, prefix: Seq<char>) -> CompilerView
    decreases target, 9int, 0int, 0int,
{
    let held = s.temp(prefix);
    let s = s.after_temp().assign_top(held).push_name(held);
    gen_destructure(s, target).emit0(Opcode::OpPop)
}

pub open spec fn gen_element_targets(
    s: CompilerView,
    items: Vec<Expression>,
    source: Seq<char>,
    i: int,
) -> CompilerView
    decreases items, 1int, items@.len() - i, 1int,
{
    element_targets_rule(s, items, source, i)
}

#[verifier::opaque]
pub open spec fn element_targets_rule(
    s: CompilerView,
    items: Vec<Expression>,
    source: Seq<char>,
    i: int,
) -> CompilerView
    decreases items, 1int, items@.len() - i, 0int,
{
    if i < 0 || i >= items@.len() {
        s
    } else {
        let s = match items@[i] {
            Expression::Spread { value } => if i + 1 != items@.len() {
                s.fail("array rest element in assignment must be last"@)
            } else {
                match *value {
                    Expression::Identifier(name) => s.push_rest(source, i).assign_target(name@),
                    Expression::Assign { .. } => s.fail(
                        "rest element in array binding cannot have default"@,
                    ),
                    _ => s.fail("array rest assignment requires identifier target"@),
                }
            },
            Expression::Identifier(name) => s.push_element(source, i).assign_target(name@),
            Expression::Assign { left, operator, right } => if operator@ == "="@ {
                match *left {
                    Expression::Identifier(name) => gen_default(
                        s.push_element(source, i),
                        *right,
                    ).assign_target(name@),
                    Expression::Array(_) | Expression::Hash(_) => gen_nested(
                        gen_default(s.push_element(source, i), *right),
                        *left,
                        "arr_nested"@,
                    ),
                    _ => s.fail(
                        "array destructuring default supports identifier or nested pattern targets only"@,
                    ),
                }
            } else {
                s.fail(
                    "array destructuring assignment supports identifier or nested pattern targets only"@,
                )
            },
            Expression::Array(_) | Expression::Hash(_) => gen_nested(
                s.push_element(source, i),
                items@[i],
                "arr_nested"@,
            ),
            _ => s.fail(
                "array destructuring assignment supports identifier or nested pattern targets only"@,
            ),
        };
        gen_element_targets(s, items, source, i + 1)
    }
}

/// Push the keys of the entries from position `i` on that are not the rest.
pub open spec fn gen_entry_keys(s: CompilerView, entries: Vec<HashEntry>, i: int) -> CompilerView
    decreases entries, 1int, entries@.len() - i, 1int,
{
    entry_keys_rule(s, entries, i)
}

#[verifier::opaque]
pub open spec fn entry_keys_rule(s: CompilerView, entries: Vec<HashEntry>, i: int) -> CompilerView
    decreases entries, 1int, entries@.len() - i, 0int,
{
    if i < 0 || i >= entries@.len() {
        s
    } else {
        let s = match entries@[i] {
            HashEntry::Spread(_) => s,
            HashEntry::KeyValue { key, .. } => gen_expr(s, key),
            HashEntry::Method { key, .. } => gen_expr(s, key),
            HashEntry::Getter { key, .. } => gen_expr(s, key),
            HashEntry::Setter { key, .. } => gen_expr(s, key),
        };
        gen_entry_keys(s, entries, i + 1)
    }
}

/// How many of the first `n` entries are not the rest.
pub open spec fn keyed_entries(entries: Seq<HashEntry>, n: int) -> nat
    decreases n,
{
    if n <= 0 {
        0
    } else {
        keyed_entries(entries, n - 1) + if entries[n - 1] is Spread {
            0nat
        } else {
            1
        }
    }
}

pub open spec fn gen_property_targets(
    s: CompilerView,
    entries: Vec<HashEntry>,
    source: Seq<char>,
    i: int,
) -> CompilerView
    decreases entries, 2int, entries@.len() - i, 1int,
{
    property_targets_rule(s, entries, source, i)
}

#[verifier::opaque]
pub open spec fn property_targets_rule(
    s: CompilerView,
    entries: Vec<HashEntry>,
    source: Seq<char>,
    i: int,
) -> CompilerView
    decreases entries, 2int, entries@.len() - i, 0int,
{
    if i < 0 || i >= entries@.len() {
        s
    } else {
        let s = match entries@[i] {
            HashEntry::Spread(target) => match target {
                Expression::Identifier(name) => gen_entry_keys(
                    s.push_name(source),
                    entries,
                    0,
                ).emit1(
                    Opcode::OpObjectRest,
                    keyed_entries(entries@, entries@.len() as int) as u16,
                ).assign_target(name@),
                _ => s.fail(
                    "object rest destructuring assignment requires identifier target"@,
                ),
            },
            HashEntry::KeyValue { key, value } => {
                let s = gen_expr(s.push_name(source), key).emit0(Opcode::OpIndex);
                gen_property_target(s, value)
            },
            _ => s.fail("methods/getters/setters not valid in destructuring assignment"@),
        };
        gen_property_targets(s, entries, source, i + 1)
    }
}

pub open spec fn gen_property_target(s: CompilerView, target: Expression) -> CompilerView
    decreases target, 10int, 0int, 1int,
{
    property_target_rule(s, target)
}

#[verifier::opaque]
pub open spec fn property_target_rule(s: CompilerView, target: Expression) -> CompilerView
    decreases target, 10int, 0int, 0int,
{
    match target {
        Expression::Identifier(name) => s.assign_target(name@),
        Expression::Assign { left, operator, right } => if operator@ == "="@ {
            match *left {
                Expression::Identifier(name) => gen_default(s, *right).assign_target(name@),
                Expression::Array(_) | Expression::Hash(_) => gen_nested(
                    gen_default(s, *right),
                    *left,
                    "obj_nested"@,
                ),
                _ => s.fail(
                    "object destructuring default supports identifier or nested pattern targets only"@,
                ),
            }
        } else {
            s.fail(
                "object destructuring assignment supports identifier or nested pattern targets only"@,
            )
        },
        Expression::Array(_) | Expression::Hash(_) => gen_nested(s, target, "obj_nested"@),
        _ => s.fail(
            "object destructuring assignment supports identifier or nested pattern targets only"@,
        ),
    }
}

// Functions and classes

/// A function without code, which stands in for one that was rejected.
pub open spec fn blank_function() -> FunctionView {
    FunctionView {
        instructions: Seq::empty(),
        constants: Seq::empty(),
        num_locals: 0,
        num_parameters: 0,
        rest_parameter_index: None,
        takes_this: false,
        is_async: false,
        is_generator: false,
        num_cache_slots: 0,
        max_stack_depth: 0,
        register_count: 0,
        inline_cache: Seq::empty(),
        closure_captures: Seq::empty(),
        captured_values: Seq::empty(),
    }
}

pub open spec fn gen_function(
    s: CompilerView,
    list: Vec<String>,
    body: Vec<Statement>,
    takes_this: bool,
    is_async: bool,
    is_generator: bool,
) -> (CompilerView, FunctionView)
    decreases body, 4int, 0int, 1int,
{
    function_rule(s, list, body, takes_this, is_async, is_generator)
}

#[verifier::opaque]
pub open spec fn function_rule(
    s: CompilerView,
    list: Vec<String>,
    body: Vec<Statement>,
    takes_this: bool,
    is_async: bool,
    is_generator: bool,
) -> (CompilerView, FunctionView)
    decreases body, 4int, 0int, 0int,
{
    let p = parameters(list@, list@.len() as int);
    if s.err is Some {
        (s, blank_function())
    } else if p.err is Some {
        (s.fail(p.err->0), blank_function())
    } else {
        gen_body(s, p.names, p.rest, body, takes_this, is_async, is_generator)
    }
}

/// A function with the given parameter names.
pub open spec fn gen_body(
    s: CompilerView,
    names: Seq<Seq<char>>,
    rest: Option<usize>,
    body: Vec<Statement>,
    takes_this: bool,
    is_async: bool,
    is_generator: bool,
) -> (CompilerView, FunctionView)
    decreases body, 3int, 0int, 1int,
{
    body_rule(s, names, rest, body, takes_this, is_async, is_generator)
}

#[verifier::opaque]
pub open spec fn body_rule(
    s: CompilerView,
    names: Seq<Seq<char>>,
    rest: Option<usize>,
    body: Vec<Statement>,
    takes_this: bool,
    is_async: bool,
    is_generator: bool,
) -> (CompilerView, FunctionView)
    decreases body, 3int, 0int, 0int,
{
    let inner = s.function_scope(effective_parameters(names, takes_this));
    let inner = gen_stmts(declare_all(inner, var_names(body, 0), 0), body, 0).finish_function();
    (
        s.after_function(inner),
        inner.function(
            match rest {
                Some(i) => i,
                None => names.len() as usize,
            },
            rest,
            takes_this,
            is_async,
            is_generator,
        ),
    )
}

/// The function that computes a field's initial value.
pub open spec fn gen_field(
    s: CompilerView,
    initializer: Option<Expression>,
) -> (
    CompilerView,
    FunctionView,
)
    decreases initializer, 3int, 0int, 1int,
{
    field_rule(s, initializer)
}

#[verifier::opaque]
pub open spec fn field_rule(
    s: CompilerView,
    initializer: Option<Expression>,
) -> (
    CompilerView,
    FunctionView,
)
    decreases initializer, 3int, 0int, 0int,
{
    let inner = s.function_scope(seq!["this"@]);
    let inner = match initializer {
        Some(value) => gen_expr(inner, value),
        None => inner.push_name("undefined"@),
    };
    let inner = inner.emit0(Opcode::OpReturnValue).finish_function();
    (s.after_function(inner), inner.function(0, None, true, false, false))
}

/// The name of the class that is extended.
pub open spec fn parent_name(extends: Option<Box<Expression>>) -> Option<Seq<char>> {
    match extends {
        Some(e) => match *e {
            Expression::Identifier(name) => Some(name@),
            _ => None,
        },
        None => None,
    }
}

/// A class that is extended, with its name.
pub open spec fn parent_class(
    extends: Option<Seq<char>>,
    class_defs: Names<ClassView>,
) -> Option<(Seq<char>, ClassView)> {
    match extends {
        Some(name) => match class_defs.get(name) {
            Some(parent) => Some((name, parent)),
            None => None,
        },
        None => None,
    }
}

/// A class that has only what it inherits.
pub open spec fn derived_class(
    name: Seq<char>,
    parent: Option<(Seq<char>, ClassView)>,
) -> ClassView {
    let empty = ClassView {
        name,
        parent_chain: Seq::empty(),
        constructor: None,
        methods: Names::empty(),
        static_methods: Names::empty(),
        getters: Names::empty(),
        setters: Names::empty(),
        super_methods: Names::empty(),
        super_getters: Names::empty(),
        super_setters: Names::empty(),
        super_constructor_chain: Seq::empty(),
        field_initializers: Seq::empty(),
        static_initializers: Seq::empty(),
        static_fields: Names::empty(),
    };
    match parent {
        Some((parent_name, parent)) => ClassView {
            parent_chain: seq![parent_name] + parent.parent_chain,
            methods: parent.methods,
            getters: parent.getters,
            setters: parent.setters,
            super_methods: match parent.constructor {
                Some(f) => parent.methods.set("constructor"@, f),
                None => parent.methods,
            },
            super_getters: parent.getters,
            super_setters: parent.setters,
            field_initializers: parent.field_initializers,
            ..empty
        },
        None => empty,
    }
}

/// A class without members of its own.
pub open spec fn bare_class(
    name: Seq<char>,
    extends: Option<Seq<char>>,
    class_defs: Names<ClassView>,
) -> ClassView {
    derived_class(name, parent_class(extends, class_defs))
}

/// A class with a method added.
pub open spec fn with_method(
    class: ClassView,
    name: Seq<char>,
    is_static: bool,
    is_getter: bool,
    is_setter: bool,
    f: FunctionView,
) -> ClassView {
    if name == "constructor"@ {
        ClassView { constructor: Some(f), ..class }
    } else if is_static {
        ClassView { static_methods: class.static_methods.set(name, f), ..class }
    } else if is_getter {
        ClassView { getters: class.getters.set(name, f), ..class }
    } else if is_setter {
        ClassView { setters: class.setters.set(name, f), ..class }
    } else {
        ClassView { methods: class.methods.set(name, f), ..class }
    }
}

/// A class with a field added.
pub open spec fn with_field(
    class: ClassView,
    name: Seq<char>,
    is_static: bool,
    f: FunctionView,
) -> ClassView {
    if is_static {
        ClassView {
            static_initializers: class.static_initializers.push(
                StaticInitializerView::Field(name, f),
            ),
            ..class
        }
    } else {
        ClassView { field_initializers: class.field_initializers.push((name, f)), ..class }
    }
}

/// A class with the members from position `i` on added.
pub open spec fn gen_members(
    s: CompilerView,
    class: ClassView,
    members: Vec<ClassMember>,
    i: int,
) -> (CompilerView, ClassView)
    decreases members, 1int, members@.len() - i, 1int,
{
    members_rule(s, class, members, i)
}

#[verifier::opaque]
pub open spec fn members_rule(
    s: CompilerView,
    class: ClassView,
    members: Vec<ClassMember>,
    i: int,
) -> (CompilerView, ClassView)
    decreases members, 1int, members@.len() - i, 0int,
{
    if i < 0 || i >= members@.len() {
        (s, class)
    } else {
        match members@[i] {
            ClassMember::Method(m) => {
                let (s, f) = gen_function(s, m.parameters, m.body, true, false, false);
                let class = with_method(class, m.name@, m.is_static, m.is_getter, m.is_setter, f);
                gen_members(s, class, members, i + 1)
            },
            ClassMember::Field { name, initializer, is_static } => {
                let (s, f) = gen_field(s, initializer);
                gen_members(s, with_field(class, name@, is_static, f), members, i + 1)
            },
            ClassMember::StaticBlock { body } => {
                let (s, f) = gen_body(s, Seq::empty(), None, body, true, false, false);
                let class = ClassView {
                    static_initializers: class.static_initializers.push(
                        StaticInitializerView::Block(f),
                    ),
                    ..class
                };
                gen_members(s, class, members, i + 1)
            },
        }
    }
}

/// Push a class, and run its static initializers if it has any.
pub open spec fn gen_class_value(
    s: CompilerView,
    name: Option<String>,
    extends: Option<Box<Expression>>,
    members: Vec<ClassMember>,
) -> CompilerView
    decreases members, 4int, 0int, 1int,
{
    class_value_rule(s, name, extends, members)
}

#[verifier::opaque]
pub open spec fn class_value_rule(
    s: CompilerView,
    name: Option<String>,
    extends: Option<Box<Expression>>,
    members: Vec<ClassMember>,
) -> CompilerView
    decreases members, 4int, 0int, 0int,
{
    let own_name = match name {
        Some(n) => n@,
        None => ""@,
    };
    let bare = bare_class(own_name, parent_name(extends), s.class_defs);
    let (s, class) = gen_members(s, bare, members, 0);
    let s = match name {
        Some(n) => s.define_class(n@, class),
        None => s,
    };
    let s = s.push_object(ObjectView::Class(class));
    if class.static_initializers.len() > 0 {
        s.emit0(Opcode::OpInitClass)
    } else {
        s
    }
}

/// A whole program.
#[verifier::opaque]
pub open spec fn gen_program(s: CompilerView, program: Program) -> CompilerView {
    let s = declare_all(s, var_names(program.statements, 0), 0);
    gen_stmts(s, program.statements, 0).emit0(Opcode::OpHalt)
}

} // verus!
