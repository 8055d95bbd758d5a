//! What code the register compiler generates for each kind of statement and
//! expression.
//!
//! Each rule takes the compiler's state to the state after the construct was
//! compiled. An expression is compiled either into a given register or into
//! the next temporary one.
use vstd::prelude::*;

use crate::ast::{
    ArrayBindingItem, BindingPattern, BindingTarget, ClassMember, Expression, ForBinding,
    HashEntry, ObjectBindingItem, Program, Statement, SwitchCase,
};
use crate::builtins::global_member;
use crate::captures::{expr_captures, stmts_captures};
use crate::codegen::{
    has_spread, is_const, is_logical_assignment, name_and_property, property_sum, Slot, PLACEHOLDER,
};
use crate::object::{
    ClassView, FunctionView, ObjectView, StaticInitializerView, SuperLevelView,
};
use crate::rcode::ROp;
use crate::rcodegen::{
    compound_rop, infix_rop, nth_reg, numeric_constant, rfuse_compare, rfuse_increment,
    rfuse_mod_eq, RView,
};
use crate::rules::{
    blank_function, default_case, derived_class, effective_parameters, kept_items, keyed_entries,
    label_view, may_repeat, parameters, parent_class, parent_name, pattern_names, plain_entries,
    setter_parameters, var_names, with_field, with_method,
};

verus! {

/// Which statements of a list are compiled.
#[derive(Clone, Copy, Debug, PartialEq, Eq, Structural)]
pub enum Pick {
    All,
    Functions,
    Others,
}

/// How a list of statements is compiled: which of them, whether the temporary
/// registers are freed after each, and whether a statement without a value
/// leaves the last value as it was.
#[derive(Clone, Copy, Debug, PartialEq, Eq, Structural)]
pub struct Walk {
    pub pick: Pick,
    pub free: bool,
    pub keep: bool,
}

/// All statements, one after the other.
pub open spec fn plain_walk() -> Walk {
    Walk { pick: Pick::All, free: false, keep: false }
}

/// All statements, freeing the temporary registers after each.
pub open spec fn freeing_walk() -> Walk {
    Walk { pick: Pick::All, free: true, keep: false }
}

/// All statements, keeping the last value there was.
pub open spec fn keeping_walk() -> Walk {
    Walk { pick: Pick::All, free: false, keep: true }
}

pub open spec fn picked(pick: Pick, stmt: Statement) -> bool {
    match pick {
        Pick::All => true,
        Pick::Functions => stmt is FunctionDecl,
        Pick::Others => !(stmt is FunctionDecl),
    }
}

// Statements

/// The statements from position `i` up to `n`. Returns the register of the last
/// value as well.
pub open spec fn rgen_walk(
    s: RView,
    stmts: Vec<Statement>,
    i: int,
    n: int,
    walk: Walk,
    last: Option<u16>,
) -> (RView, Option<u16>)
    decreases stmts, 1int, n - i, 1int,
{
    walk_rrule(s, stmts, i, n, walk, last)
}

#[verifier::opaque]
pub open spec fn walk_rrule(
    s: RView,
    stmts: Vec<Statement>,
    i: int,
    n: int,
    walk: Walk,
    last: Option<u16>,
) -> (RView, Option<u16>)
    decreases stmts, 1int, n - i, 0int,
{
    if i < 0 || i >= n || i >= stmts@.len() {
        (s, last)
    } else if !picked(walk.pick, stmts@[i]) {
        rgen_walk(s, stmts, i + 1, n, walk, last)
    } else {
        let (s, r) = rgen_stmt(s, stmts@[i]);
        rgen_walk(
            if walk.free {
                s.free_temps()
            } else {
                s
            },
            stmts,
            i + 1,
            n,
            walk,
            if walk.keep && r is None {
                last
            } else {
                r
            },
        )
    }
}

/// The first `n` statements of a block, with the block's own variables.
pub open spec fn rgen_block(
    s: RView,
    stmts: Vec<Statement>,
    n: int,
    walk: Walk,
) -> (RView, Option<u16>)
    decreases stmts, 2int, 0int, 1int,
{
    block_rrule(s, stmts, n, walk)
}

#[verifier::opaque]
pub open spec fn block_rrule(
    s: RView,
    stmts: Vec<Statement>,
    n: int,
    walk: Walk,
) -> (RView, Option<u16>)
    decreases stmts, 2int, 0int, 0int,
{
    let (s, hidden) = s.enter_block(stmts@, 0, Seq::empty());
    let (s, last) = rgen_walk(s, stmts, 0, n, walk, None);
    (s.exit_block(hidden, 0), last)
}

/// A statement, unless the program was rejected already. Returns the register of
/// its value as well, if it has one.
pub open spec fn rgen_stmt(s: RView, stmt: Statement) -> (RView, Option<u16>)
    decreases stmt, 10int, 0int, 0int,
{
    if s.err is Some {
        (s, None)
    } else {
        stmt_rrule(s, stmt)
    }
}

#[verifier::opaque]
pub open spec fn stmt_rrule(s: RView, stmt: Statement) -> (RView, Option<u16>)
    decreases stmt, 9int, 0int, 0int,
{
    match stmt {
        Statement::Let { name, value, kind } => {
            let s = if is_const(kind) {
                s.declare_const(name@)
            } else {
                s
            };
            let known = s.locals.has(name@);
            let (s, slot) = s.binding_slot(name@);
            match slot {
                Slot::Local(r) => {
                    let s = if known {
                        rgen_into_local(s, value, r)
                    } else {
                        rgen_expr_into(s, value, r)
                    };
                    (
                        if s.is_function_scope {
                            s.mirror_captured(name@, r)
                        } else {
                            s
                        },
                        None,
                    )
                },
                Slot::Global(g) => {
                    let r = s.next_temp;
                    (rgen_expr(s, value).emit(ROp::SetGlobal, seq![g, r]), None)
                },
            }
        },
        Statement::LetPattern { pattern, value, kind } => {
            let s = if is_const(kind) {
                s.declare_consts(pattern_names(pattern))
            } else {
                s
            };
            let s = if s.is_function_scope {
                s.declare_locals(pattern_names(pattern), 0)
            } else {
                s
            };
            let source = s.next_temp;
            (rgen_pattern(rgen_expr(s, value), pattern, source), None)
        },
        Statement::Return { value } => {
            let r = s.next_temp;
            let s = rgen_expr(s, value);
            match s.pending_return() {
                Some((held, flag)) => (s.defer_return(held, flag, r), None),
                None => (s.emit(ROp::Return, seq![r]), None),
            }
        },
        Statement::ReturnVoid => match s.pending_return() {
            Some((held, flag)) => {
                let r = s.next_temp;
                let s = s.take_temp().emit(ROp::LoadUndef, seq![r]);
                (s.defer_return(held, flag, r), None)
            },
            None => (s.emit(ROp::ReturnUndef, seq![]), None),
        },
        Statement::Expression(e) => (rgen_expr(s, e), Some(s.next_temp)),
        Statement::Block(body) => rgen_block(s, body, body@.len() as int, plain_walk()),
        Statement::MultiLet(body) => rgen_walk(
            s,
            body,
            0,
            body@.len() as int,
            plain_walk(),
            None,
        ),
        Statement::While { .. } => (rgen_while(s, stmt, None), None),
        Statement::DoWhile { .. } => (rgen_do_while(s, stmt, None), None),
        Statement::For { .. } => (rgen_for(s, stmt, None), None),
        Statement::ForOf { .. } => (rgen_for_of(s, stmt, None), None),
        Statement::ForIn { .. } => (rgen_for_in(s, stmt, None), None),
        Statement::Switch { .. } => (rgen_switch(s, stmt, None), None),
        Statement::FunctionDecl { name, parameters, body, is_async, is_generator } => {
            let r = s.next_temp;
            let (s, f) = rgen_function(
                s.take_temp(),
                parameters,
                body,
                true,
                is_async,
                is_generator,
            );
            (s.load_function(r, f).store_binding(name@, r), None)
        },
        Statement::ClassDecl { name, extends, members } => {
            let s = match name {
                Some(n) => s.declare_class(n@),
                None => s,
            };
            let (s, class) = rgen_class(s, name, extends, members);
            let (s, idx) = s.add_constant(ObjectView::Class(class));
            let r = s.next_temp;
            let s = init_class(s.take_temp().load_const(r, idx), class, r);
            match name {
                Some(n) => (s.store_binding(n@, r), None),
                None => (s, None),
            }
        },
        Statement::Throw { value } => {
            let r = s.next_temp;
            (throw_reg(rgen_expr(s, value), r), None)
        },
        Statement::Try { .. } => rgen_try(s, stmt),
        Statement::Labeled { label, statement } => match *statement {
            Statement::While { .. } => (rgen_while(s, *statement, Some(label@)), None),
            Statement::DoWhile { .. } => (rgen_do_while(s, *statement, Some(label@)), None),
            Statement::Switch { .. } => (rgen_switch(s, *statement, Some(label@)), None),
            Statement::For { .. } => (rgen_for(s, *statement, Some(label@)), None),
            Statement::ForOf { .. } => (rgen_for_of(s, *statement, Some(label@)), None),
            Statement::ForIn { .. } => (rgen_for_in(s, *statement, Some(label@)), None),
            _ => (s.fail("only loop statements can be labeled"@), None),
        },
        Statement::Break { label } => (s.jump_from_loop(label_view(label), true), None),
        Statement::Continue { label } => (s.jump_from_loop(label_view(label), false), None),
        Statement::Debugger => (s, None),
    }
}

/// Run the static initializers of a class in a register, if it has any.
#[verifier::opaque]
pub open spec fn init_class(s: RView, class: ClassView, r: u16) -> RView {
    if class.static_initializers.len() > 0 {
        s.emit(ROp::InitClass, seq![r]).reload_from(0)
    } else {
        s
    }
}

/// The test of an `if` or a loop: the state, and the position of the jump that
/// is taken when it fails.
pub open spec fn rgen_condition(s: RView, c: Expression) -> (RView, usize)
    decreases c, 9int, 0int, 1int,
{
    condition_rrule(s, c)
}

#[verifier::opaque]
pub open spec fn condition_rrule(s: RView, c: Expression) -> (RView, usize)
    decreases c, 9int, 0int, 0int,
{
    match rfuse_compare(s, c) {
        (s, Some((r, idx, or_equal))) => (
            s.emit(
                if or_equal {
                    ROp::TestLeConstJump
                } else {
                    ROp::TestLtConstJump
                },
                seq![r, idx, PLACEHOLDER],
            ),
            s.here(),
        ),
        (s, None) => match rfuse_mod_eq(s, c) {
            (s, Some((r, m, k))) => (
                s.emit(ROp::ModRegConstStrictEqConstJump, seq![r, m, k, PLACEHOLDER]),
                s.here(),
            ),
            (s, None) => {
                let r = s.next_temp;
                let s = rgen_expr(s, c);
                (s.emit(ROp::JumpIfNot, seq![r, PLACEHOLDER]), s.here())
            },
        },
    }
}

/// An increment at the end of a loop's body that can take the jump back into
/// itself: the register and the constant.
#[verifier::opaque]
pub open spec fn rfuse_last(s: RView, body: Seq<Statement>) -> (RView, Option<(u16, u16)>) {
    if body.len() == 0 {
        (s, None)
    } else {
        match body.last() {
            Statement::Expression(e) => match rfuse_increment(s, e) {
                (t, Some((r, idx, name))) => if t.globals.has(name) {
                    (t, None)
                } else {
                    (t, Some((r, idx)))
                },
                (t, None) => (t, None),
            },
            _ => (s, None),
        }
    }
}

pub open spec fn rgen_while(s: RView, stmt: Statement, label: Option<Seq<char>>) -> RView
    decreases stmt, 4int, 0int, 1int,
{
    while_rrule(s, stmt, label)
}

#[verifier::opaque]
pub open spec fn while_rrule(s: RView, stmt: Statement, label: Option<Seq<char>>) -> RView
    decreases stmt, 4int, 0int, 0int,
{
    match stmt {
        Statement::While { condition, body } => {
            let start = s.here();
            let (s, jump) = rgen_condition(s, condition);
            let (s, fused) = rfuse_last(s.open_loop(label, start), body@);
            let s = match fused {
                Some((r, idx)) => {
                    let s = rgen_block(s, body, body@.len() - 1, freeing_walk()).0;
                    s.emit(ROp::IncrementRegAndJump, seq![r, idx, start as u16])
                },
                None => {
                    let s = rgen_block(s, body, body@.len() as int, freeing_walk()).0;
                    s.emit(ROp::Jump, seq![start as u16])
                },
            };
            let end = s.here();
            s.patch(jump, end).close_loop(end)
        },
        _ => s,
    }
}

pub open spec fn rgen_do_while(s: RView, stmt: Statement, label: Option<Seq<char>>) -> RView
    decreases stmt, 4int, 0int, 1int,
{
    do_while_rrule(s, stmt, label)
}

#[verifier::opaque]
pub open spec fn do_while_rrule(s: RView, stmt: Statement, label: Option<Seq<char>>) -> RView
    decreases stmt, 4int, 0int, 0int,
{
    match stmt {
        Statement::DoWhile { body, condition } => {
            let start = s.here();
            let s = s.open_loop(label, start);
            let s = rgen_block(s, body, body@.len() as int, freeing_walk()).0;
            let s = s.continue_here();
            let r = s.next_temp;
            let s = rgen_expr(s, condition);
            let exit = s.here();
            let s = s.emit(ROp::JumpIfNot, seq![r, PLACEHOLDER]);
            let s = s.emit(ROp::Jump, seq![start as u16]);
            let end = s.here();
            s.patch(exit, end).close_loop(end)
        },
        _ => s,
    }
}

pub open spec fn rgen_for(s: RView, stmt: Statement, label: Option<Seq<char>>) -> RView
    decreases stmt, 4int, 0int, 1int,
{
    for_rrule(s, stmt, label)
}

#[verifier::opaque]
pub open spec fn for_rrule(s: RView, stmt: Statement, label: Option<Seq<char>>) -> RView
    decreases stmt, 4int, 0int, 0int,
{
    match stmt {
        Statement::For { init, condition, update, body } => {
            let s = match init {
                Some(first) => rgen_stmt(s, *first).0,
                None => s,
            };
            let start = s.here();
            let (s, jump) = match condition {
                Some(c) => rgen_condition(s, c),
                None => {
                    let r = s.next_temp;
                    let s = s.take_temp().emit(ROp::LoadTrue, seq![r]);
                    (s.emit(ROp::JumpIfNot, seq![r, PLACEHOLDER]), s.here())
                },
            };
            let s = s.open_loop(label, start);
            let s = rgen_block(s, body, body@.len() as int, freeing_walk()).0;
            let s = s.continue_here();
            let s = match update {
                Some(u) => rgen_for_update(s, u, start),
                None => s.emit(ROp::Jump, seq![start as u16]),
            };
            let end = s.here();
            s.patch(jump, end).close_loop(end)
        },
        _ => s,
    }
}

/// The update of a `for` loop, and the jump back to its start.
pub open spec fn rgen_for_update(s: RView, update: Expression, start: usize) -> RView
    decreases update, 9int, 0int, 1int,
{
    for_update_rrule(s, update, start)
}

#[verifier::opaque]
pub open spec fn for_update_rrule(s: RView, update: Expression, start: usize) -> RView
    decreases update, 9int, 0int, 0int,
{
    match rfuse_increment(s, update) {
        (s, Some((r, idx, name))) => if s.globals.has(name) {
            s.emit(ROp::AddRegConst, seq![r, r, idx]).mirror(name, r).emit(
                ROp::Jump,
                seq![start as u16],
            )
        } else {
            s.emit(ROp::IncrementRegAndJump, seq![r, idx, start as u16])
        },
        (s, None) => rgen_expr(s, update).free_temps().emit(ROp::Jump, seq![start as u16]),
    }
}

/// Set the hidden counter of a loop to zero.
#[verifier::opaque]
pub open spec fn start_counter(s: RView, index: Seq<char>) -> RView {
    if s.is_function_scope {
        let (s, r) = s.local_reg(index);
        s.load_int(r, 0)
    } else {
        let r = s.next_temp;
        s.take_temp().load_int(r, 0).store_global(index, r)
    }
}

/// `index < source.length` and the jump that leaves the loop, for the hidden
/// variables of a loop. Returns the position of the jump as well.
#[verifier::opaque]
pub open spec fn rgen_length_test(s: RView, index: Seq<char>, source: Seq<char>) -> (RView, usize) {
    let result = s.next_temp;
    let s = s.take_temp();
    let saved = s.next_temp;
    let s = s.load_name_new(index);
    let length = s.next_temp;
    let s = s.take_temp().get_name_prop(length, source, "length"@);
    let s = s.emit(ROp::LessThan, seq![result, saved, length]).set_temps(saved);
    (s.emit(ROp::JumpIfNot, seq![result, PLACEHOLDER]), s.here())
}

/// `source[index]` in the next register, for the hidden variables of a loop.
#[verifier::opaque]
pub open spec fn rgen_item(s: RView, index: Seq<char>, source: Seq<char>) -> RView {
    let item = s.next_temp;
    let s = s.take_temp();
    let object = s.next_temp;
    let s = s.load_name_new(source);
    let key = s.next_temp;
    s.load_name_new(index).emit(ROp::Index, seq![item, object, key])
}

/// Store a computed value in a variable, and move it to `dst` as well.
#[verifier::opaque]
pub open spec fn store_result(s: RView, name: Seq<char>, result: u16, dst: u16) -> RView {
    if s.locals.has(name) {
        let r = s.locals.map[name];
        s.copy_reg(r, result).mirror(name, r).copy_reg(dst, r)
    } else {
        s.store_global(name, result).copy_reg(dst, result)
    }
}

/// Add a constant to a local in place, and move it to `dst` as well.
#[verifier::opaque]
pub open spec fn add_constant_to_local(s: RView, name: Seq<char>, idx: u16, dst: u16) -> RView {
    let r = s.locals.map[name];
    s.emit(ROp::AddRegConst, seq![r, r, idx]).mirror(name, r).copy_reg(dst, r)
}

/// `name += 1` or `name -= 1`.
#[verifier::opaque]
pub open spec fn rstep_name(s: RView, name: Seq<char>, operator: Seq<char>, dst: u16) -> RView {
    if s.const_bindings.contains(name) {
        s.fail("Assignment to constant variable '"@ + name + "'"@)
    } else if operator == "+="@ && s.locals.has(name) {
        let (s, idx) = s.add_int(1);
        add_constant_to_local(s, name, idx, dst)
    } else {
        match compound_rop(operator) {
            Some(op) => {
                let current = s.next_temp;
                let s = s.take_temp().load_name(name, current);
                let one = s.next_temp;
                let s = s.take_temp().load_int(one, 1);
                let result = s.next_temp;
                let s = s.take_temp().emit(op, seq![result, current, one]);
                store_result(s, name, result, dst)
            },
            None => s.fail("unsupported assignment operator "@ + operator),
        }
    }
}

/// `index += 1` and the jump back to the start of the loop.
#[verifier::opaque]
pub open spec fn rgen_next_item(s: RView, index: Seq<char>, start: usize) -> RView {
    let dst = s.next_temp;
    rstep_name(s.take_temp(), index, "+="@, dst).emit(ROp::Jump, seq![start as u16])
}

/// `Array.from(iterable)`.
pub open spec fn rgen_array_from(s: RView, iterable: Expression, dst: u16) -> RView
    decreases iterable, 9int, 0int, 1int,
{
    array_from_rrule(s, iterable, dst)
}

#[verifier::opaque]
pub open spec fn array_from_rrule(s: RView, iterable: Expression, dst: u16) -> RView
    decreases iterable, 9int, 0int, 0int,
{
    let (s, call) = s.call_dst(dst);
    match iterable {
        Expression::Spread { value } => {
            let f = s.next_temp;
            let s = s.take_temp().get_name_prop(f, "Array"@, "from"@);
            let list = s.next_temp;
            let s = s.take_temp().emit(ROp::Array, seq![list, 0, 0]);
            let v = s.next_temp;
            let s = rgen_expr(s, *value).emit(ROp::AppendSpread, seq![list, v]);
            s.emit(ROp::CallSpread, seq![call, f, list]).finish_call(call, dst)
        },
        _ => {
            let base = s.next_temp;
            let s = s.take_temp().load_name("Array"@, base);
            let first = nth_reg(base, 1);
            let s = rgen_expr_into(s.set_temps(first).take_temp(), iterable, first);
            let s = s.set_temps(nth_reg(first, 1));
            call_method(s, call, base, 1, "from"@).finish_call(call, dst)
        },
    }
}

/// Call a method of the object in `base` with `count` arguments after it.
#[verifier::opaque]
pub open spec fn call_method(s: RView, dst: u16, base: u16, count: u16, prop: Seq<char>) -> RView {
    let (s, idx) = s.add_string(prop);
    s.after_cache_slot().emit(ROp::CallMethod, seq![dst, base, count, idx, s.next_cache_slot])
}

pub open spec fn rgen_for_of(s: RView, stmt: Statement, label: Option<Seq<char>>) -> RView
    decreases stmt, 4int, 0int, 1int,
{
    for_of_rrule(s, stmt, label)
}

#[verifier::opaque]
pub open spec fn for_of_rrule(s: RView, stmt: Statement, label: Option<Seq<char>>) -> RView
    decreases stmt, 4int, 0int, 0int,
{
    match stmt {
        Statement::ForOf { binding, iterable, body } => {
            let source = s.hidden("iter"@);
            let s = s.after_name();
            let index = s.hidden("i"@);
            let s = s.after_name();
            let values = s.next_temp;
            let s = rgen_array_from(s.take_temp(), iterable, values);
            let s = start_counter(s.store_name(source, values), index);
            let start = s.here();
            let (s, jump) = rgen_length_test(s, index, source);
            let s = s.open_loop(label, start);
            let item = s.next_temp;
            let s = rgen_item(s, index, source);
            let s = match binding {
                ForBinding::Identifier(name) => s.store_name(name@, item),
                ForBinding::Pattern(p) => rgen_pattern(s, p, item),
            };
            let s = rgen_block(s, body, body@.len() as int, plain_walk()).0;
            let s = rgen_next_item(s.continue_here(), index, start);
            let end = s.here();
            s.patch(jump, end).close_loop(end)
        },
        _ => s,
    }
}

pub open spec fn rgen_for_in(s: RView, stmt: Statement, label: Option<Seq<char>>) -> RView
    decreases stmt, 4int, 0int, 1int,
{
    for_in_rrule(s, stmt, label)
}

#[verifier::opaque]
pub open spec fn for_in_rrule(s: RView, stmt: Statement, label: Option<Seq<char>>) -> RView
    decreases stmt, 4int, 0int, 0int,
{
    match stmt {
        Statement::ForIn { var_name, iterable, body } => {
            let source = s.hidden("keys"@);
            let s = s.after_name();
            let index = s.hidden("ki"@);
            let s = s.after_name();
            let object = s.next_temp;
            let s = rgen_expr(s, iterable);
            let keys = s.next_temp;
            let s = s.take_temp().emit(ROp::GetKeysIter, seq![keys, object]);
            let s = start_counter(s.store_name(source, keys), index);
            let start = s.here();
            let (s, jump) = rgen_length_test(s, index, source);
            let s = s.open_loop(label, start);
            let key = s.next_temp;
            let s = rgen_item(s, index, source).store_name(var_name@, key);
            let s = rgen_block(s, body, body@.len() as int, plain_walk()).0;
            let s = rgen_next_item(s.continue_here(), index, start);
            let end = s.here();
            s.patch(jump, end).close_loop(end)
        },
        _ => s,
    }
}

/// The tests of the cases from position `i` on, each with a jump to its body.
/// Returns the positions of those jumps as well.
pub open spec fn rgen_case_tests(
    s: RView,
    cases: Vec<SwitchCase>,
    subject: u16,
    saved: u16,
    i: int,
    jumps: Seq<usize>,
) -> (RView, Seq<usize>)
    decreases cases, 1int, cases@.len() - i, 1int,
{
    case_tests_rrule(s, cases, subject, saved, i, jumps)
}

#[verifier::opaque]
pub open spec fn case_tests_rrule(
    s: RView,
    cases: Vec<SwitchCase>,
    subject: u16,
    saved: u16,
    i: int,
    jumps: Seq<usize>,
) -> (RView, Seq<usize>)
    decreases cases, 1int, cases@.len() - i, 0int,
{
    if i < 0 || i >= cases@.len() {
        (s, jumps)
    } else {
        match cases@[i].test {
            Some(test) => {
                let t = s.next_temp;
                let s = rgen_expr(s, test);
                let equal = s.next_temp;
                let s = s.take_temp().emit(ROp::StrictEqual, seq![equal, subject, t]);
                let jump = s.here();
                let s = s.emit(ROp::JumpIfTruthy, seq![equal, PLACEHOLDER]).set_temps(saved);
                rgen_case_tests(s, cases, subject, saved, i + 1, jumps.push(jump))
            },
            None => rgen_case_tests(s, cases, subject, saved, i + 1, jumps),
        }
    }
}

/// The bodies of the cases from position `i` on, one after the other. Returns
/// where each body starts as well.
pub open spec fn rgen_case_bodies(
    s: RView,
    cases: Vec<SwitchCase>,
    i: int,
    starts: Seq<usize>,
) -> (RView, Seq<usize>)
    decreases cases, 1int, cases@.len() - i, 1int,
{
    case_bodies_rrule(s, cases, i, starts)
}

#[verifier::opaque]
pub open spec fn case_bodies_rrule(
    s: RView,
    cases: Vec<SwitchCase>,
    i: int,
    starts: Seq<usize>,
) -> (RView, Seq<usize>)
    decreases cases, 1int, cases@.len() - i, 0int,
{
    if i < 0 || i >= cases@.len() {
        (s, starts)
    } else {
        let body = cases@[i].consequent;
        rgen_case_bodies(
            rgen_walk(s, body, 0, body@.len() as int, freeing_walk(), None).0,
            cases,
            i + 1,
            starts.push(s.here()),
        )
    }
}

/// Let the jumps of the cases from position `i` on go to their bodies; `j` is
/// the first of those jumps.
#[verifier::opaque]
pub open spec fn rpatch_cases(
    s: RView,
    cases: Seq<SwitchCase>,
    i: int,
    jumps: Seq<usize>,
    j: int,
    starts: Seq<usize>,
) -> RView
    decreases cases.len() - i,
{
    if i < 0 || i >= cases.len() {
        s
    } else if cases[i].test is Some {
        rpatch_cases(s.patch(jumps[j], starts[i]), cases, i + 1, jumps, j + 1, starts)
    } else {
        rpatch_cases(s, cases, i + 1, jumps, j, starts)
    }
}

pub open spec fn rgen_switch(s: RView, stmt: Statement, label: Option<Seq<char>>) -> RView
    decreases stmt, 4int, 0int, 1int,
{
    switch_rrule(s, stmt, label)
}

#[verifier::opaque]
pub open spec fn switch_rrule(s: RView, stmt: Statement, label: Option<Seq<char>>) -> RView
    decreases stmt, 4int, 0int, 0int,
{
    match stmt {
        Statement::Switch { discriminant, cases } => {
            let s = s.open_loop(label, 0);
            let subject = s.next_temp;
            let s = rgen_expr(s, discriminant);
            let (s, jumps) = rgen_case_tests(s, cases, subject, s.next_temp, 0, Seq::empty());
            let otherwise = s.here();
            let s = s.emit(ROp::Jump, seq![PLACEHOLDER]);
            let (s, starts) = rgen_case_bodies(s, cases, 0, Seq::empty());
            let end = s.here();
            let s = rpatch_cases(s, cases@, 0, jumps, 0, starts);
            let s = match default_case(cases@, cases@.len() as int) {
                Some(d) => s.patch(otherwise, starts[d]),
                None => s.patch(otherwise, end),
            };
            s.close_switch(end)
        },
        _ => s,
    }
}

/// The start of a `try` statement with a `finally` block: the hidden variables
/// of a return that has to wait for it.
#[verifier::opaque]
pub open spec fn open_finally(s: RView) -> (RView, (Seq<char>, Seq<char>)) {
    let held = s.hidden("ret_val"@);
    let s = s.after_name();
    let flag = s.hidden("ret_flag"@);
    let s = s.after_name();
    let r = s.next_temp;
    (s.take_temp().emit(ROp::LoadFalse, seq![r]).store_name(flag, r), (held, flag))
}

/// Return now if a return has waited for the `finally` block, unless it has to wait
/// for another one.
#[verifier::opaque]
pub open spec fn resume_return(s: RView, held: Seq<char>, flag: Seq<char>) -> RView {
    let f = s.next_temp;
    let s = s.load_name_new(flag);
    let skip = s.here();
    let s = s.emit(ROp::JumpIfNot, seq![f, PLACEHOLDER]);
    let v = s.next_temp;
    let s = s.load_name_new(held);
    let s = match s.pending_return() {
        Some((outer, outer_flag)) => s.defer_return(outer, outer_flag, v),
        None => s.emit(ROp::Return, seq![v]),
    };
    s.patch(skip, s.here())
}

/// The start of a `try` statement with a `finally` block: the hidden variable that
/// tells whether an exception has to wait for it.
#[verifier::opaque]
pub open spec fn open_thrown(s: RView) -> (RView, Seq<char>) {
    let thrown = s.hidden("exc_flag"@);
    let s = s.after_name();
    let r = s.next_temp;
    (s.take_temp().emit(ROp::LoadFalse, seq![r]).store_name(thrown, r), thrown)
}

/// Let an exception wait for the `finally` block, which follows.
#[verifier::opaque]
pub open spec fn note_throw(s: RView, thrown: Seq<char>) -> RView {
    let r = s.next_temp;
    s.take_temp().emit(ROp::LoadTrue, seq![r]).store_name(thrown, r)
}

/// Throw an exception in a register: to the innermost handler, or out of the code.
#[verifier::opaque]
pub open spec fn throw_reg(s: RView, r: u16) -> RView {
    if s.try_stack.len() == 0 {
        s.emit(ROp::Throw, seq![r])
    } else {
        s.throw_to_handler(r)
    }
}

/// Throw an exception on if it has waited for the `finally` block.
#[verifier::opaque]
pub open spec fn resume_throw(s: RView, exception: Seq<char>, thrown: Seq<char>) -> RView {
    let f = s.next_temp;
    let s = s.load_name_new(thrown);
    let skip = s.here();
    let s = s.emit(ROp::JumpIfNot, seq![f, PLACEHOLDER]);
    let r = s.next_temp;
    let s = throw_reg(s.load_name_new(exception), r);
    s.patch(skip, s.here())
}

/// A `catch` block. Returns the jumps in it that go to the `finally` block and the
/// register of the last value as well. Where a `finally` block follows, the throws
/// in it jump to the next instruction.
pub open spec fn rgen_catch(
    s: RView,
    stmt: Statement,
    exception: Seq<char>,
    deferred: Option<(Seq<char>, Seq<char>)>,
    last: Option<u16>,
) -> (RView, Seq<usize>, Option<u16>)
    decreases stmt, 3int, 0int, 1int,
{
    catch_rrule(s, stmt, exception, deferred, last)
}

#[verifier::opaque]
pub open spec fn catch_rrule(
    s: RView,
    stmt: Statement,
    exception: Seq<char>,
    deferred: Option<(Seq<char>, Seq<char>)>,
    last: Option<u16>,
) -> (RView, Seq<usize>, Option<u16>)
    decreases stmt, 3int, 0int, 0int,
{
    match stmt {
        Statement::Try { catch_param, catch_block, .. } => match catch_block {
            Some(block) => {
                let s = if deferred is Some {
                    s.open_try(exception, deferred)
                } else {
                    s
                };
                let s = match catch_param {
                    Some(p) => s.load_name_new(exception).store_name(p@, s.next_temp),
                    None => s,
                };
                let (s, last) = rgen_walk(
                    s,
                    block,
                    0,
                    block@.len() as int,
                    keeping_walk(),
                    last,
                );
                if deferred is Some {
                    let over = s.here();
                    let (s, waiting) = s.emit(ROp::Jump, seq![PLACEHOLDER]).close_try();
                    (s, waiting.push(over), last)
                } else {
                    (s, Seq::empty(), last)
                }
            },
            None => (s, Seq::empty(), last),
        },
        _ => (s, Seq::empty(), last),
    }
}

pub open spec fn rgen_try(s: RView, stmt: Statement) -> (RView, Option<u16>)
    decreases stmt, 4int, 0int, 1int,
{
    try_rrule(s, stmt)
}

#[verifier::opaque]
pub open spec fn try_rrule(s: RView, stmt: Statement) -> (RView, Option<u16>)
    decreases stmt, 4int, 0int, 0int,
{
    match stmt {
        Statement::Try { try_block, finally_block, .. } => {
            let exception = s.hidden("exc"@);
            let s = s.after_name();
            let r = s.next_temp;
            let s = s.take_temp().emit(ROp::LoadNull, seq![r]).store_name(exception, r);
            let (s, deferred) = if finally_block is Some {
                let (s, pair) = open_finally(s);
                (s, Some(pair))
            } else {
                (s, None)
            };
            let (s, thrown) = if finally_block is Some {
                open_thrown(s)
            } else {
                (s, Seq::empty())
            };
            let s = s.open_try(exception, deferred);
            let (s, last) = rgen_walk(
                s,
                try_block,
                0,
                try_block@.len() as int,
                keeping_walk(),
                None,
            );
            let over = s.here();
            let s = s.emit(ROp::Jump, seq![PLACEHOLDER]);
            let (s, waiting) = s.close_try();
            let (s, more, last) = rgen_catch(s, stmt, exception, deferred, last);
            let s = if finally_block is Some {
                note_throw(s, thrown)
            } else {
                s
            };
            let finally_start = s.here();
            let s = match (finally_block, deferred) {
                (Some(block), Some((held, flag))) => {
                    let s = rgen_walk(s, block, 0, block@.len() as int, plain_walk(), None).0;
                    resume_throw(resume_return(s, held, flag), exception, thrown)
                },
                _ => s,
            };
            let s = s.patch_all(waiting, 0, finally_start).patch_all(more, 0, finally_start);
            let target = if finally_block is Some {
                finally_start
            } else {
                s.here()
            };
            (s.patch(over, target), last)
        },
        _ => (s, None),
    }
}

// Destructuring

/// `source[i]` in a new register, which is the one after the next.
#[verifier::opaque]
pub open spec fn get_element(s: RView, source: u16, i: int) -> RView {
    let key = s.next_temp;
    let s = s.take_temp().load_int(key, i as i64);
    let value = s.next_temp;
    s.take_temp().emit(ROp::Index, seq![value, source, key])
}

/// The register in which `get_element` leaves its result.
#[verifier::opaque]
pub open spec fn element_reg(s: RView, i: int) -> u16 {
    s.take_temp().load_int(s.next_temp, i as i64).next_temp
}

/// Store `source[i..]` in a variable.
#[verifier::opaque]
pub open spec fn store_rest(s: RView, source: u16, i: int, name: Seq<char>) -> RView {
    let rest = s.next_temp;
    s.take_temp().emit(ROp::IteratorRest, seq![rest, source, (i as usize) as u16]).store_name(
        name,
        rest,
    )
}

/// Assign `source[i..]` to a variable that may have been declared constant.
#[verifier::opaque]
pub open spec fn assign_rest(s: RView, source: u16, i: int, name: Seq<char>) -> RView {
    let rest = s.next_temp;
    s.take_temp().emit(ROp::IteratorRest, seq![rest, source, (i as usize) as u16]).store_target(
        name,
        rest,
    )
}

/// Bind the names of a pattern to the parts of the value in a register.
pub open spec fn rgen_pattern(s: RView, p: BindingPattern, source: u16) -> RView
    decreases p, 4int, 0int, 1int,
{
    pattern_rrule(s, p, source)
}

#[verifier::opaque]
pub open spec fn pattern_rrule(s: RView, p: BindingPattern, source: u16) -> RView
    decreases p, 4int, 0int, 0int,
{
    match p {
        BindingPattern::Array(items) => rgen_array_items(s, items, source, 0),
        BindingPattern::Object(items) => rgen_object_items(s, items, source, 0),
    }
}

pub open spec fn rgen_array_items(
    s: RView,
    items: Vec<ArrayBindingItem>,
    source: u16,
    i: int,
) -> RView
    decreases items, 1int, items@.len() - i, 1int,
{
    array_items_rrule(s, items, source, i)
}

#[verifier::opaque]
pub open spec fn array_items_rrule(
    s: RView,
    items: Vec<ArrayBindingItem>,
    source: u16,
    i: int,
) -> RView
    decreases items, 1int, items@.len() - i, 0int,
{
    if i < 0 || i >= items@.len() {
        s
    } else {
        let s = match items@[i] {
            ArrayBindingItem::Hole => s,
            ArrayBindingItem::Binding { target, default_value } => {
                let value = element_reg(s, i);
                let s = get_element(s, source, i);
                let s = match default_value {
                    Some(d) => rgen_default(s, d, value),
                    None => s,
                };
                rgen_target(s, target, value)
            },
            ArrayBindingItem::Rest { name } => store_rest(s, source, i, name@),
        };
        rgen_array_items(s, items, source, i + 1)
    }
}

pub open spec fn rgen_object_items(
    s: RView,
    items: Vec<ObjectBindingItem>,
    source: u16,
    i: int,
) -> RView
    decreases items, 2int, items@.len() - i, 1int,
{
    object_items_rrule(s, items, source, i)
}

#[verifier::opaque]
pub open spec fn object_items_rrule(
    s: RView,
    items: Vec<ObjectBindingItem>,
    source: u16,
    i: int,
) -> RView
    decreases items, 2int, items@.len() - i, 0int,
{
    if i < 0 || i >= items@.len() {
        s
    } else {
        let item = items@[i];
        let s = if item.is_rest {
            let base = s.next_temp;
            let s = rgen_item_keys(s, items, 0);
            let rest = s.next_temp;
            let count = kept_items(items@, items@.len() as int) as u16;
            let s = s.take_temp().emit(ROp::ObjectRest, seq![rest, source, base, count]);
            match item.target {
                BindingTarget::Identifier(name) => s.store_name(name@, rest),
                BindingTarget::Pattern(_) => s.fail("object rest target must be identifier"@),
            }
        } else {
            let key = s.next_temp;
            let s = rgen_expr(s, item.key);
            let value = s.next_temp;
            let s = s.take_temp().emit(ROp::Index, seq![value, source, key]);
            let s = match item.default_value {
                Some(d) => rgen_default(s, d, value),
                None => s,
            };
            rgen_target(s, item.target, value)
        };
        rgen_object_items(s, items, source, i + 1)
    }
}

/// Load the keys of the items from position `i` on that are not the rest.
pub open spec fn rgen_item_keys(s: RView, items: Vec<ObjectBindingItem>, i: int) -> RView
    decreases items, 1int, items@.len() - i, 1int,
{
    item_keys_rrule(s, items, i)
}

#[verifier::opaque]
pub open spec fn item_keys_rrule(s: RView, items: Vec<ObjectBindingItem>, i: int) -> RView
    decreases items, 1int, items@.len() - i, 0int,
{
    if i < 0 || i >= items@.len() {
        s
    } else if items@[i].is_rest {
        rgen_item_keys(s, items, i + 1)
    } else {
        rgen_item_keys(rgen_expr(s, items@[i].key), items, i + 1)
    }
}

pub open spec fn rgen_target(s: RView, t: BindingTarget, source: u16) -> RView
    decreases t, 4int, 0int, 1int,
{
    target_rrule(s, t, source)
}

#[verifier::opaque]
pub open spec fn target_rrule(s: RView, t: BindingTarget, source: u16) -> RView
    decreases t, 4int, 0int, 0int,
{
    match t {
        BindingTarget::Identifier(name) => s.store_name(name@, source),
        BindingTarget::Pattern(p) => rgen_pattern(s, *p, source),
    }
}

/// Replace an undefined value in a register by a default.
pub open spec fn rgen_default(s: RView, default: Expression, value: u16) -> RView
    decreases default, 9int, 0int, 1int,
{
    default_rrule(s, default, value)
}

#[verifier::opaque]
pub open spec fn default_rrule(s: RView, default: Expression, value: u16) -> RView
    decreases default, 9int, 0int, 0int,
{
    let (s, skip) = test_undefined(s, value);
    let s = rgen_expr_into(s, default, value);
    s.patch(skip, s.here())
}

/// Test whether a register is undefined. Returns the position of the jump that
/// is taken when it is not.
#[verifier::opaque]
pub open spec fn test_undefined(s: RView, value: u16) -> (RView, usize) {
    let kind = s.next_temp;
    let s = s.take_temp().emit(ROp::Typeof, seq![kind, value]);
    let (s, idx) = s.add_string("undefined"@);
    let undefined = s.next_temp;
    let s = s.take_temp().load_const(undefined, idx);
    let equal = s.next_temp;
    let s = s.take_temp().emit(ROp::Equal, seq![equal, kind, undefined]);
    (s.emit(ROp::JumpIfNot, seq![equal, PLACEHOLDER]), s.here())
}

// Expressions

/// An expression in the next temporary register.
pub open spec fn rgen_expr(s: RView, e: Expression) -> RView
    decreases e, 8int, 0int, 0int,
{
    rgen_expr_into(s.take_temp(), e, s.next_temp)
}

/// The items from position `i` on, in consecutive registers from `base` on.
pub open spec fn rgen_packed(s: RView, items: Vec<Expression>, base: u16, i: int) -> RView
    decreases items, 1int, items@.len() - i, 1int,
{
    packed_rrule(s, items, base, i)
}

#[verifier::opaque]
pub open spec fn packed_rrule(s: RView, items: Vec<Expression>, base: u16, i: int) -> RView
    decreases items, 1int, items@.len() - i, 0int,
{
    if i < 0 || i >= items@.len() {
        s.set_temps(nth_reg(base, i as usize))
    } else {
        let r = nth_reg(base, i as usize);
        rgen_packed(
            rgen_expr_into(s.set_temps(r).take_temp(), items@[i], r),
            items,
            base,
            i + 1,
        )
    }
}

/// Append the items from position `i` on to the array in a register.
pub open spec fn rgen_appends(s: RView, items: Vec<Expression>, list: u16, i: int) -> RView
    decreases items, 1int, items@.len() - i, 1int,
{
    appends_rrule(s, items, list, i)
}

#[verifier::opaque]
pub open spec fn appends_rrule(s: RView, items: Vec<Expression>, list: u16, i: int) -> RView
    decreases items, 1int, items@.len() - i, 0int,
{
    if i < 0 || i >= items@.len() {
        s
    } else {
        let v = s.next_temp;
        let s = match items@[i] {
            Expression::Spread { value } => rgen_expr(s, *value).emit(
                ROp::AppendSpread,
                seq![list, v],
            ),
            _ => rgen_expr(s, items@[i]).emit(ROp::AppendElement, seq![list, v]),
        };
        rgen_appends(s, items, list, i + 1)
    }
}

/// The items from position `i` on, of which the last goes to `dst`.
pub open spec fn rgen_sequence(s: RView, items: Vec<Expression>, dst: u16, i: int) -> RView
    decreases items, 1int, items@.len() - i, 1int,
{
    sequence_rrule(s, items, dst, i)
}

#[verifier::opaque]
pub open spec fn sequence_rrule(s: RView, items: Vec<Expression>, dst: u16, i: int) -> RView
    decreases items, 1int, items@.len() - i, 0int,
{
    if i < 0 || i >= items@.len() {
        s
    } else {
        rgen_sequence(
            if i + 1 == items@.len() {
                rgen_expr_into(s, items@[i], dst)
            } else {
                rgen_expr(s, items@[i])
            },
            items,
            dst,
            i + 1,
        )
    }
}

/// Apply a prefix operator to a register.
#[verifier::opaque]
pub open spec fn rgen_prefix(s: RView, operator: Seq<char>, dst: u16, source: u16) -> RView {
    if operator == "!"@ {
        s.emit(ROp::Not, seq![dst, source])
    } else if operator == "-"@ {
        s.emit(ROp::Neg, seq![dst, source])
    } else if operator == "+"@ {
        s.emit(ROp::UnaryPlus, seq![dst, source])
    } else if operator == "~"@ {
        let (s, idx) = s.add_int(-1i64);
        let ones = s.next_temp;
        s.take_temp().load_const(ones, idx).emit(ROp::BitwiseXor, seq![dst, source, ones])
    } else {
        s.fail("unsupported prefix operator "@ + operator)
    }
}

/// An expression in a given register, unless the program was rejected already.
pub open spec fn rgen_expr_into(s: RView, e: Expression, dst: u16) -> RView
    decreases e, 7int, 0int, 0int,
{
    if s.err is Some {
        s
    } else {
        expr_rrule(s, e, dst)
    }
}

#[verifier::opaque]
pub open spec fn expr_rrule(s: RView, e: Expression, dst: u16) -> RView
    decreases e, 6int, 0int, 0int,
{
    match e {
        Expression::Integer(v) => s.load_int(dst, v),
        Expression::Float(bits) => s.load_float(dst, bits),
        Expression::String(v) => s.load_string(dst, v@),
        Expression::RegExp { pattern, flags } => s.load_object(
            dst,
            ObjectView::RegExp { pattern: pattern@, flags: flags@ },
        ),
        Expression::Boolean(v) => s.emit(
            if v {
                ROp::LoadTrue
            } else {
                ROp::LoadFalse
            },
            seq![dst],
        ),
        Expression::Null => s.emit(ROp::LoadNull, seq![dst]),
        Expression::Identifier(name) => s.load_name(name@, dst),
        Expression::This => s.load_name("this"@, dst),
        Expression::Super => s.emit(ROp::Super, seq![dst]),
        Expression::NewTarget => s.emit(ROp::NewTarget, seq![dst]),
        Expression::ImportMeta => s.emit(ROp::ImportMeta, seq![dst]),
        Expression::Array(items) => if has_spread(items@) {
            rgen_appends(s.emit(ROp::Array, seq![dst, 0, 0]), items, dst, 0)
        } else {
            let base = s.next_temp;
            rgen_packed(s, items, base, 0).emit(
                ROp::Array,
                seq![dst, base, items@.len() as u16],
            )
        },
        Expression::Hash(entries) => rgen_hash(s, entries, dst),
        Expression::Prefix { operator, right } => {
            let saved = s.next_temp;
            rgen_prefix(rgen_expr(s, *right), operator@, dst, saved).set_temps(saved)
        },
        Expression::Typeof { value } => {
            let saved = s.next_temp;
            let known = match *value {
                Expression::Identifier(name) => s.locals.has(name@) || s.globals.has(name@)
                    || global_member(name@) is Some || s.is_function_scope,
                _ => true,
            };
            let s = if known {
                rgen_expr(s, *value)
            } else {
                s.take_temp().emit(ROp::LoadUndef, seq![saved])
            };
            s.emit(ROp::Typeof, seq![dst, saved]).set_temps(saved)
        },
        Expression::Void { value } => {
            let saved = s.next_temp;
            rgen_expr(s, *value).set_temps(saved).emit(ROp::LoadUndef, seq![dst])
        },
        Expression::Delete { value } => rgen_delete(s, *value, dst),
        Expression::Await { value } => {
            let source = s.next_temp;
            rgen_expr(s, *value).emit(ROp::Await, seq![dst, source])
        },
        Expression::Yield { value, .. } => {
            let source = s.next_temp;
            rgen_expr(s, *value).emit(ROp::Yield, seq![dst, source])
        },
        Expression::Spread { .. } => s.fail("spread expression is only valid in array literals"@),
        Expression::Sequence(items) => rgen_sequence(s, items, dst, 0),
        Expression::Infix { left, operator, right } => if operator@ == ","@ {
            let saved = s.next_temp;
            rgen_expr_into(rgen_expr(s, *left).set_temps(saved), *right, dst)
        } else if operator@ == "&&"@ || operator@ == "||"@ || operator@ == "??"@ {
            rgen_logical(s, e, dst)
        } else {
            let saved = s.next_temp;
            let s = rgen_expr(s, *left);
            let r = s.next_temp;
            let s = rgen_expr(s, *right);
            let s = match infix_rop(operator@) {
                Some(op) => s.emit(op, seq![dst, saved, r]),
                None => s.fail("unsupported infix operator "@ + operator@),
            };
            s.set_temps(saved)
        },
        Expression::Assign { .. } => rgen_assign(s, e, dst),
        Expression::Update { .. } => rgen_update(s, e, dst),
        Expression::If { .. } => rgen_if(s, e, dst),
        Expression::Index { left, index } => match *index {
            Expression::String(prop) => match *left {
                Expression::Identifier(name) => s.get_name_prop(dst, name@, prop@),
                Expression::This => s.get_name_prop(dst, "this"@, prop@),
                _ => {
                    let object = s.next_temp;
                    rgen_expr(s, *left).get_prop(dst, object, prop@)
                },
            },
            _ => {
                let object = s.next_temp;
                let s = rgen_expr(s, *left);
                let key = s.next_temp;
                rgen_expr(s, *index).emit(ROp::Index, seq![dst, object, key])
            },
        },
        Expression::OptionalIndex { left, index } => {
            let object = s.next_temp;
            let (s, skip) = test_nullish(rgen_expr(s, *left), object, dst);
            let s = match *index {
                Expression::String(prop) => s.get_prop(dst, object, prop@),
                _ => {
                    let key = s.next_temp;
                    rgen_expr(s, *index).emit(ROp::Index, seq![dst, object, key])
                },
            };
            s.patch(skip, s.here())
        },
        Expression::OptionalCall { function, arguments } => {
            let (s, call) = s.call_dst(dst);
            let f = s.next_temp;
            let (s, skip) = test_nullish(rgen_expr(s, *function), f, dst);
            let s = if has_spread(arguments@) {
                let list = s.next_temp;
                let s = s.take_temp().emit(ROp::Array, seq![list, 0, 0]);
                rgen_appends(s, arguments, list, 0).emit(ROp::CallSpread, seq![call, f, list])
            } else {
                let saved = s.next_temp;
                rgen_packed(s, arguments, nth_reg(f, 1), 0).emit(
                    ROp::Call,
                    seq![call, f, arguments@.len() as u16],
                ).set_temps(saved)
            };
            let s = s.finish_call(call, dst);
            s.patch(skip, s.here())
        },
        Expression::Call { .. } => rgen_call(s, e, dst),
        Expression::New { callee, arguments } => {
            let (s, call) = s.call_dst(dst);
            let base = s.next_temp;
            let s = if has_spread(arguments@) {
                let s = rgen_expr(s, *callee);
                let list = s.next_temp;
                let s = s.take_temp().emit(ROp::Array, seq![list, 0, 0]);
                rgen_appends(s, arguments, list, 0).emit(ROp::NewSpread, seq![call, base, list])
            } else {
                rgen_packed(rgen_expr(s, *callee), arguments, nth_reg(base, 1), 0).emit(
                    ROp::New,
                    seq![call, base, arguments@.len() as u16],
                )
            };
            s.finish_call(call, dst)
        },
        Expression::Function { parameters, body, is_async, is_generator, is_arrow } => {
            let (s, f) = rgen_function(s, parameters, body, !is_arrow, is_async, is_generator);
            s.load_function(dst, f)
        },
        Expression::Class { name, extends, members } => {
            let (s, class) = rgen_class(s, name, extends, members);
            init_class(s.load_object(dst, ObjectView::Class(class)), class, dst)
        },
    }
}

/// Test whether a register is null or undefined, in which case `dst` becomes
/// undefined. Returns the position of the jump past what is to be done
/// otherwise.
#[verifier::opaque]
pub open spec fn test_nullish(s: RView, source: u16, dst: u16) -> (RView, usize) {
    let nullish = s.next_temp;
    let s = s.take_temp().emit(ROp::IsNullish, seq![nullish, source]);
    let present = s.here();
    let s = s.emit(ROp::JumpIfNot, seq![nullish, PLACEHOLDER]).emit(ROp::LoadUndef, seq![dst]);
    let absent = s.here();
    let s = s.emit(ROp::Jump, seq![PLACEHOLDER]);
    (s.patch(present, s.here()), absent)
}

/// The slot of the global that is called by its name.
#[verifier::opaque]
pub open spec fn rcalled_global(s: RView, function: Expression) -> Option<u16> {
    match function {
        Expression::Identifier(name) => if s.locals.has(name@) {
            None
        } else {
            s.globals.get(name@)
        },
        _ => None,
    }
}

pub open spec fn rgen_call(s: RView, e: Expression, dst: u16) -> RView
    decreases e, 4int, 0int, 1int,
{
    call_rrule(s, e, dst)
}

#[verifier::opaque]
pub open spec fn call_rrule(s: RView, e: Expression, dst: u16) -> RView
    decreases e, 4int, 0int, 0int,
{
    match e {
        Expression::Call { function, arguments } => {
            let (s, call) = s.call_dst(dst);
            let base = s.next_temp;
            let count = arguments@.len() as u16;
            if has_spread(arguments@) {
                let s = rgen_expr(s, *function);
                let list = s.next_temp;
                let s = s.take_temp().emit(ROp::Array, seq![list, 0, 0]);
                rgen_appends(s, arguments, list, 0).emit(
                    ROp::CallSpread,
                    seq![call, base, list],
                ).finish_call(call, dst)
            } else {
                match rcalled_global(s, *function) {
                    Some(g) => rgen_packed(s.take_temp(), arguments, nth_reg(base, 1), 0).emit(
                        ROp::CallGlobal,
                        seq![call, g, base, count],
                    ).finish_call(call, dst),
                    None => rgen_member_call(s, e, dst, call, base),
                }
            }
        },
        _ => s,
    }
}

/// A call of a method or of the value of an expression. The arguments follow
/// `base`, the next register.
pub open spec fn rgen_member_call(s: RView, e: Expression, dst: u16, call: u16, base: u16) -> RView
    decreases e, 3int, 0int, 1int,
{
    member_call_rrule(s, e, dst, call, base)
}

#[verifier::opaque]
pub open spec fn member_call_rrule(s: RView, e: Expression, dst: u16, call: u16, base: u16) -> RView
    decreases e, 3int, 0int, 0int,
{
    match e {
        Expression::Call { function, arguments } => {
            let first = nth_reg(base, 1);
            let count = arguments@.len() as u16;
            match called_method(*function) {
                Some((object, prop, optional)) => {
                    let s = rgen_expr(s, object);
                    if optional {
                        let (s, skip) = test_nullish(s, base, dst);
                        let s = rgen_packed(s, arguments, first, 0);
                        let s = call_method(s, call, base, count, prop).finish_call(call, dst);
                        s.patch(skip, s.here())
                    } else {
                        let s = rgen_packed(s, arguments, first, 0);
                        call_method(s, call, base, count, prop).finish_call(call, dst)
                    }
                },
                None => rgen_packed(rgen_expr(s, *function), arguments, first, 0).emit(
                    ROp::Call,
                    seq![call, base, count],
                ).finish_call(call, dst),
            }
        },
        _ => s,
    }
}

/// The object and name of a method that is called, and whether the object may
/// be missing.
pub open spec fn called_method(function: Expression) -> Option<(Expression, Seq<char>, bool)> {
    match function {
        Expression::Index { left, index } => match *index {
            Expression::String(prop) => Some((*left, prop@, false)),
            _ => None,
        },
        Expression::OptionalIndex { left, index } => match *index {
            Expression::String(prop) => Some((*left, prop@, true)),
            _ => None,
        },
        _ => None,
    }
}

pub open spec fn rgen_if(s: RView, e: Expression, dst: u16) -> RView
    decreases e, 4int, 0int, 1int,
{
    if_rrule(s, e, dst)
}

#[verifier::opaque]
pub open spec fn if_rrule(s: RView, e: Expression, dst: u16) -> RView
    decreases e, 4int, 0int, 0int,
{
    match e {
        Expression::If { condition, consequence, alternative } => {
            let (s, jump) = rgen_condition(s, *condition);
            let (s, last) = rgen_block(
                s,
                consequence,
                consequence@.len() as int,
                plain_walk(),
            );
            let s = copy_last(s, dst, last);
            let over = s.here();
            let s = s.emit(ROp::Jump, seq![PLACEHOLDER]);
            let s = s.patch(jump, s.here());
            let s = match alternative {
                Some(alt) => {
                    let (s, last) = rgen_block(s, alt, alt@.len() as int, plain_walk());
                    copy_last(s, dst, last)
                },
                None => s.emit(ROp::LoadNull, seq![dst]),
            };
            s.patch(over, s.here())
        },
        _ => s,
    }
}

/// Move the last value of a block to where it belongs, if there is one.
pub open spec fn copy_last(s: RView, dst: u16, last: Option<u16>) -> RView {
    match last {
        Some(r) => s.copy_reg(dst, r),
        None => s,
    }
}

pub open spec fn rgen_logical(s: RView, e: Expression, dst: u16) -> RView
    decreases e, 4int, 0int, 1int,
{
    logical_rrule(s, e, dst)
}

#[verifier::opaque]
pub open spec fn logical_rrule(s: RView, e: Expression, dst: u16) -> RView
    decreases e, 4int, 0int, 0int,
{
    match e {
        Expression::Infix { left, operator, right } => {
            let l = s.next_temp;
            let s = rgen_expr(s, *left).copy_reg(dst, l);
            let (s, end) = if operator@ == "||"@ {
                (s.emit(ROp::JumpIfTruthy, seq![dst, PLACEHOLDER]), s.here())
            } else if operator@ == "&&"@ {
                (s.emit(ROp::JumpIfNot, seq![dst, PLACEHOLDER]), s.here())
            } else {
                let nullish = s.next_temp;
                let s = s.take_temp().emit(ROp::IsNullish, seq![nullish, dst]);
                (s.emit(ROp::JumpIfNot, seq![nullish, PLACEHOLDER]), s.here())
            };
            let s = rgen_expr_into(s, *right, dst);
            s.patch(end, s.here())
        },
        _ => s,
    }
}

pub open spec fn rgen_delete(s: RView, value: Expression, dst: u16) -> RView
    decreases value, 9int, 0int, 1int,
{
    delete_rrule(s, value, dst)
}

#[verifier::opaque]
pub open spec fn delete_rrule(s: RView, value: Expression, dst: u16) -> RView
    decreases value, 9int, 0int, 0int,
{
    match value {
        Expression::Index { left, index } => {
            let object = s.next_temp;
            let s = rgen_expr(s, *left);
            let key = s.next_temp;
            let s = rgen_expr(s, *index).emit(ROp::DeleteProp, seq![dst, object, key]);
            let s = match *left {
                Expression::Identifier(name) => write_back_name(s, name@, object),
                _ => s,
            };
            s.emit(ROp::LoadTrue, seq![dst])
        },
        Expression::Identifier(_) => s.emit(ROp::LoadFalse, seq![dst]),
        _ => rgen_expr(s, value).emit(ROp::LoadTrue, seq![dst]),
    }
}

/// Store a changed object back in the variable it came from.
#[verifier::opaque]
pub open spec fn write_back_name(s: RView, name: Seq<char>, object: u16) -> RView {
    if s.locals.has(name) {
        s.emit(ROp::Move, seq![s.locals.map[name], object])
    } else if s.globals.has(name) {
        s.emit(ROp::SetGlobal, seq![s.globals.map[name], object])
    } else {
        s
    }
}

// Object literals

/// Functions of an object literal that were compiled ahead of it: the
/// constants of its methods, and name, function and kind of its accessors.
#[verifier::ext_equal]
pub struct HashFunctions {
    pub methods: Seq<u16>,
    pub accessors: Seq<(u16, u16, u16)>,
}

/// Compile the functions of the entries from position `i` on.
pub open spec fn rgen_hash_functions(
    s: RView,
    entries: Vec<HashEntry>,
    i: int,
    done: HashFunctions,
) -> (RView, HashFunctions)
    decreases entries, 1int, entries@.len() - i, 1int,
{
    hash_functions_rrule(s, entries, i, done)
}

#[verifier::opaque]
pub open spec fn hash_functions_rrule(
    s: RView,
    entries: Vec<HashEntry>,
    i: int,
    done: HashFunctions,
) -> (RView, HashFunctions)
    decreases entries, 1int, entries@.len() - i, 0int,
{
    if i < 0 || i >= entries@.len() {
        (s, done)
    } else {
        match entries@[i] {
            HashEntry::Method { parameters, body, is_async, is_generator, .. } => {
                let (s, f) = rgen_function(s, parameters, body, true, is_async, is_generator);
                let (s, idx) = s.add_constant(ObjectView::Function(f));
                rgen_hash_functions(
                    s,
                    entries,
                    i + 1,
                    HashFunctions { methods: done.methods.push(idx), ..done },
                )
            },
            HashEntry::Getter { key, body } => {
                let (s, f) = rgen_body(s, Seq::empty(), None, body, true, false, false);
                let (s, accessor) = add_accessor(s, f, key, 0);
                rgen_hash_functions(s, entries, i + 1, with_accessor(done, accessor))
            },
            HashEntry::Setter { key, parameter, body } => {
                let p = setter_parameters(parameter);
                let (s, f) = if p.err is Some {
                    (s.fail(p.err->0), blank_function())
                } else {
                    rgen_body(s, p.names, p.rest, body, true, false, false)
                };
                let (s, accessor) = add_accessor(s, f, key, 1);
                rgen_hash_functions(s, entries, i + 1, with_accessor(done, accessor))
            },
            _ => rgen_hash_functions(s, entries, i + 1, done),
        }
    }
}

/// The constants of an accessor, whose name has to be written out.
#[verifier::opaque]
pub open spec fn add_accessor(
    s: RView,
    f: FunctionView,
    key: Expression,
    kind: u16,
) -> (RView, Option<(u16, u16, u16)>) {
    let (s, function) = s.add_constant(ObjectView::Function(f));
    match key {
        Expression::String(name) => {
            let (s, prop) = s.add_string(name@);
            (s, Some((prop, function, kind)))
        },
        _ => if kind == 0 {
            (s.fail("computed getter keys not yet supported"@), None)
        } else {
            (s.fail("computed setter keys not yet supported"@), None)
        },
    }
}

/// Functions with an accessor added, if there is one.
pub open spec fn with_accessor(
    done: HashFunctions,
    accessor: Option<(u16, u16, u16)>,
) -> HashFunctions {
    match accessor {
        Some(a) => HashFunctions { accessors: done.accessors.push(a), ..done },
        None => done,
    }
}

/// The register `2 * k` places after `base`.
pub open spec fn pair_reg(base: u16, k: usize) -> u16 {
    nth_reg(nth_reg(base, k), k)
}

/// Key and value of each plain entry from position `i` on, in consecutive
/// registers from `base` on. `k` entries and `m` methods came before.
pub open spec fn rgen_pairs(
    s: RView,
    entries: Vec<HashEntry>,
    base: u16,
    methods: Seq<u16>,
    i: int,
    k: int,
    m: int,
) -> RView
    decreases entries, 1int, entries@.len() - i, 1int,
{
    pairs_rrule(s, entries, base, methods, i, k, m)
}

#[verifier::opaque]
pub open spec fn pairs_rrule(
    s: RView,
    entries: Vec<HashEntry>,
    base: u16,
    methods: Seq<u16>,
    i: int,
    k: int,
    m: int,
) -> RView
    decreases entries, 1int, entries@.len() - i, 0int,
{
    if i < 0 || i >= entries@.len() {
        s.set_temps(pair_reg(base, k as usize))
    } else {
        let key_reg = pair_reg(base, k as usize);
        let value_reg = nth_reg(key_reg, 1);
        let ready = s.set_temps(key_reg).take_temp().set_temps(value_reg).take_temp();
        match entries@[i] {
            HashEntry::KeyValue { key, value } => rgen_pairs(
                rgen_expr_into(rgen_expr_into(ready, key, key_reg), value, value_reg),
                entries,
                base,
                methods,
                i + 1,
                k + 1,
                m,
            ),
            HashEntry::Method { key, .. } => rgen_pairs(
                rgen_expr_into(ready, key, key_reg).load_const(value_reg, method_at(methods, m)),
                entries,
                base,
                methods,
                i + 1,
                k + 1,
                m + 1,
            ),
            HashEntry::Spread(value) => rgen_pairs(
                rgen_expr_into(ready.load_string(key_reg, "__fl_rest__"@), value, value_reg),
                entries,
                base,
                methods,
                i + 1,
                k + 1,
                m,
            ),
            _ => rgen_pairs(s, entries, base, methods, i + 1, k, m),
        }
    }
}

/// The constant of a method.
pub open spec fn method_at(methods: Seq<u16>, m: int) -> u16 {
    if 0 <= m < methods.len() {
        methods[m]
    } else {
        0
    }
}

/// Attach the accessors from position `i` on to the hash in a register.
#[verifier::opaque]
pub open spec fn define_accessors(
    s: RView,
    dst: u16,
    accessors: Seq<(u16, u16, u16)>,
    i: int,
) -> RView
    decreases accessors.len() - i,
{
    if i < 0 || i >= accessors.len() {
        s
    } else {
        let (prop, function, kind) = accessors[i];
        let r = s.next_temp;
        let s = s.take_temp().load_const(r, function);
        define_accessors(
            s.emit(ROp::DefineAccessor, seq![dst, r, prop, kind]),
            dst,
            accessors,
            i + 1,
        )
    }
}

pub open spec fn rgen_hash(s: RView, entries: Vec<HashEntry>, dst: u16) -> RView
    decreases entries, 2int, 0int, 1int,
{
    hash_rrule(s, entries, dst)
}

#[verifier::opaque]
pub open spec fn hash_rrule(s: RView, entries: Vec<HashEntry>, dst: u16) -> RView
    decreases entries, 2int, 0int, 0int,
{
    let none = HashFunctions { methods: Seq::empty(), accessors: Seq::empty() };
    let (s, functions) = rgen_hash_functions(s, entries, 0, none);
    let base = s.next_temp;
    let count = plain_entries(entries@, entries@.len() as int) as usize;
    let s = rgen_pairs(s, entries, base, functions.methods, 0, 0, 0);
    let s = s.emit(ROp::Hash, seq![dst, base, pair_reg(0, count)]);
    define_accessors(s, dst, functions.accessors, 0)
}

// Assignment

pub open spec fn rgen_assign(s: RView, e: Expression, dst: u16) -> RView
    decreases e, 5int, 1int, 1int,
{
    assign_rrule(s, e, dst)
}

#[verifier::opaque]
pub open spec fn assign_rrule(s: RView, e: Expression, dst: u16) -> RView
    decreases e, 5int, 1int, 0int,
{
    match e {
        Expression::Assign { left, operator, right } => match *left {
            Expression::Identifier(name) => rgen_name_assign(s, name@, operator@, *right, dst),
            Expression::Index { .. } => rgen_index_assign(s, e, operator@, Seq::empty(), dst),
            Expression::Array(_) => if operator@ != "="@ {
                s.fail("only '=' supported for array destructuring assignment"@)
            } else {
                let source = s.next_temp;
                rgen_destructure(rgen_expr(s, *right), *left, source).copy_reg(dst, source)
            },
            Expression::Hash(_) => if operator@ != "="@ {
                s.fail("only '=' supported for object destructuring assignment"@)
            } else {
                let source = s.next_temp;
                rgen_destructure(rgen_expr(s, *right), *left, source).copy_reg(dst, source)
            },
            _ => s.fail("invalid assignment target"@),
        },
        _ => s,
    }
}

/// The number that `name = name + number` or `name += number` adds.
pub open spec fn added_operand(
    name: Seq<char>,
    operator: Seq<char>,
    right: Expression,
) -> Option<Expression> {
    if operator == "+="@ {
        Some(right)
    } else if operator == "="@ {
        match right {
            Expression::Infix { left, operator: plus, right: amount } => match *left {
                Expression::Identifier(other) => if plus@ == "+"@ && other@ == name {
                    Some(*amount)
                } else {
                    None
                },
                _ => None,
            },
            _ => None,
        }
    } else {
        None
    }
}

/// The constant that an assignment adds to a local, if that is what it does.
#[verifier::opaque]
pub open spec fn rfuse_add(
    s: RView,
    name: Seq<char>,
    operator: Seq<char>,
    right: Expression,
) -> (RView, Option<u16>) {
    match added_operand(name, operator, right) {
        Some(amount) => if s.locals.has(name) {
            numeric_constant(s, amount)
        } else {
            (s, None)
        },
        None => (s, None),
    }
}

/// Whether the code of an expression writes its register only once everything
/// that it reads has been read.
pub open spec fn fills_last(e: Expression) -> bool {
    match e {
        Expression::Array(items) => !has_spread(items@),
        Expression::Infix { operator, .. } => operator@ != ","@ && operator@ != "&&"@ && operator@
            != "||"@ && operator@ != "??"@,
        Expression::Sequence(_)
        | Expression::Assign { .. }
        | Expression::Update { .. }
        | Expression::Class { .. } => false,
        _ => true,
    }
}

/// Evaluate an expression into the register of a variable that it may read.
pub open spec fn rgen_into_local(s: RView, e: Expression, dst: u16) -> RView
    decreases e, 9int, 1int, 1int,
{
    into_local_rrule(s, e, dst)
}

#[verifier::opaque]
pub open spec fn into_local_rrule(s: RView, e: Expression, dst: u16) -> RView
    decreases e, 9int, 1int, 0int,
{
    if fills_last(e) {
        rgen_expr_into(s, e, dst)
    } else {
        let value = s.next_temp;
        rgen_expr(s, e).copy_reg(dst, value)
    }
}

pub open spec fn rgen_name_assign(
    s: RView,
    name: Seq<char>,
    operator: Seq<char>,
    right: Expression,
    dst: u16,
) -> RView
    decreases right, 10int, 0int, 1int,
{
    name_assign_rrule(s, name, operator, right, dst)
}

#[verifier::opaque]
pub open spec fn name_assign_rrule(
    s: RView,
    name: Seq<char>,
    operator: Seq<char>,
    right: Expression,
    dst: u16,
) -> RView
    decreases right, 10int, 0int, 0int,
{
    if s.const_bindings.contains(name) {
        s.fail("Assignment to constant variable '"@ + name + "'"@)
    } else if is_logical_assignment(operator) {
        rgen_logical_assign(s, name, operator, right, dst)
    } else {
        match rfuse_add(s, name, operator, right) {
            (s, Some(idx)) => add_constant_to_local(s, name, idx, dst),
            (s, None) => if operator == "="@ {
                if s.locals.has(name) {
                    let r = s.locals.map[name];
                    rgen_into_local(s, right, r).mirror(name, r).copy_reg(dst, r)
                } else {
                    let value = s.next_temp;
                    rgen_expr(s, right).store_global(name, value).copy_reg(dst, value)
                }
            } else {
                match compound_rop(operator) {
                    Some(op) => {
                        let current = s.next_temp;
                        let s = s.take_temp().load_name(name, current);
                        let operand = s.next_temp;
                        let s = rgen_expr(s, right);
                        let result = s.next_temp;
                        let s = s.take_temp().emit(op, seq![result, current, operand]);
                        store_result(s, name, result, dst)
                    },
                    None => s.fail("unsupported assignment operator "@ + operator),
                }
            },
        }
    }
}

/// Store a register in the variable that a name means.
#[verifier::opaque]
pub open spec fn store_to_name(s: RView, name: Seq<char>, source: u16) -> RView {
    if s.locals.has(name) {
        let r = s.locals.map[name];
        s.copy_reg(r, source).mirror(name, r)
    } else {
        s.store_global(name, source)
    }
}

pub open spec fn rgen_logical_assign(
    s: RView,
    name: Seq<char>,
    operator: Seq<char>,
    right: Expression,
    dst: u16,
) -> RView
    decreases right, 9int, 0int, 1int,
{
    logical_assign_rrule(s, name, operator, right, dst)
}

#[verifier::opaque]
pub open spec fn logical_assign_rrule(
    s: RView,
    name: Seq<char>,
    operator: Seq<char>,
    right: Expression,
    dst: u16,
) -> RView
    decreases right, 9int, 0int, 0int,
{
    let current = s.next_temp;
    let s = s.take_temp().load_name(name, current);
    if operator == "&&="@ || operator == "||="@ {
        let s = s.copy_reg(dst, current);
        let keep = s.here();
        let s = if operator == "&&="@ {
            s.emit(ROp::JumpIfNot, seq![dst, PLACEHOLDER])
        } else {
            s.emit(ROp::JumpIfTruthy, seq![dst, PLACEHOLDER])
        };
        let s = store_to_name(rgen_expr_into(s, right, dst), name, dst);
        s.patch(keep, s.here())
    } else {
        let nullish = s.next_temp;
        let s = s.take_temp().emit(ROp::IsNullish, seq![nullish, current]);
        let keep = s.here();
        let s = s.emit(ROp::JumpIfNot, seq![nullish, PLACEHOLDER]);
        let s = store_to_name(rgen_expr_into(s, right, dst), name, dst);
        let end = s.here();
        let s = s.emit(ROp::Jump, seq![PLACEHOLDER]);
        let s = s.patch(keep, s.here()).copy_reg(dst, current);
        s.patch(end, s.here())
    }
}

/// The object and key of an assignment or update, or of the target itself.
pub open spec fn stored_element(e: Expression) -> Option<(Expression, Expression)> {
    match e {
        Expression::Assign { left, .. } => match *left {
            Expression::Index { left: object, index } => Some((*object, *index)),
            _ => None,
        },
        Expression::Update { target, .. } => match *target {
            Expression::Index { left: object, index } => Some((*object, *index)),
            _ => None,
        },
        Expression::Index { left: object, index } => Some((*object, *index)),
        _ => None,
    }
}

/// The right side of an assignment, the number one for an update, or a hidden
/// variable for a bare target, in a given register.
pub open spec fn rgen_right_into(s: RView, e: Expression, held: Seq<char>, dst: u16) -> RView
    decreases e, 2int, 0int, 1int,
{
    right_into_rrule(s, e, held, dst)
}

#[verifier::opaque]
pub open spec fn right_into_rrule(s: RView, e: Expression, held: Seq<char>, dst: u16) -> RView
    decreases e, 2int, 0int, 0int,
{
    match e {
        Expression::Assign { right, .. } => rgen_expr_into(s, *right, dst),
        Expression::Update { .. } => s.load_int(dst, 1),
        _ => s.load_name(held, dst),
    }
}

/// The same in the next register.
pub open spec fn rgen_right(s: RView, e: Expression, held: Seq<char>) -> RView
    decreases e, 3int, 0int, 1int,
{
    right_rrule(s, e, held)
}

#[verifier::opaque]
pub open spec fn right_rrule(s: RView, e: Expression, held: Seq<char>) -> RView
    decreases e, 3int, 0int, 0int,
{
    rgen_right_into(s.take_temp(), e, held, s.next_temp)
}

/// The name of an object that is a variable or `this`.
pub open spec fn object_name(object: Expression) -> Option<Seq<char>> {
    match object {
        Expression::Identifier(name) => Some(name@),
        Expression::This => Some("this"@),
        _ => None,
    }
}

/// The local that holds the object of a store, if there is one.
#[verifier::opaque]
pub open spec fn object_local(s: RView, object: Expression) -> Option<u16> {
    match object_name(object) {
        Some(name) => s.locals.get(name),
        None => None,
    }
}

/// Store a changed object back in the local it came from.
#[verifier::opaque]
pub open spec fn write_back(s: RView, object: Expression, r: u16) -> RView {
    match object_local(s, object) {
        Some(local) => s.copy_reg(local, r),
        None => s,
    }
}

/// The constant that a numeric right side stands for.
#[verifier::opaque]
pub open spec fn right_constant(s: RView, e: Expression) -> (RView, Option<u16>) {
    match e {
        Expression::Assign { right, .. } => numeric_constant(s, *right),
        Expression::Update { .. } => {
            let (t, idx) = s.add_int(1);
            (t, Some(idx))
        },
        _ => (s, None),
    }
}

/// The two operands of a sum on the right side of an assignment.
pub open spec fn sum_operands(e: Expression) -> Option<(Expression, Expression)> {
    match e {
        Expression::Assign { right, .. } => match *right {
            Expression::Infix { left, operator, right } => if operator@ == "+"@ {
                Some((*left, *right))
            } else {
                None
            },
            _ => None,
        },
        _ => None,
    }
}

/// `local.prop = local.prop + number`, `local.prop = number + local.prop` or
/// `local.prop += number`: the register, the property and the constant.
#[verifier::opaque]
pub open spec fn rfuse_property_add(
    s: RView,
    e: Expression,
    operator: Seq<char>,
) -> (RView, Option<(u16, Seq<char>, u16)>) {
    match stored_element(e) {
        Some((object, Expression::String(prop))) => if operator == "="@ {
            match (object, sum_operands(e)) {
                (Expression::Identifier(name), Some((a, b))) => if s.locals.has(name@) {
                    let r = s.locals.map[name@];
                    let place = Some((name@, prop@));
                    let (s, first) = if name_and_property(a) == place {
                        numeric_constant(s, b)
                    } else {
                        (s, None)
                    };
                    match first {
                        Some(idx) => (s, Some((r, prop@, idx))),
                        None => {
                            let (s, second) = if name_and_property(b) == place {
                                numeric_constant(s, a)
                            } else {
                                (s, None)
                            };
                            match second {
                                Some(idx) => (s, Some((r, prop@, idx))),
                                None => (s, None),
                            }
                        },
                    }
                } else {
                    (s, None)
                },
                _ => (s, None),
            }
        } else if operator == "+="@ {
            match object_local(s, object) {
                Some(r) => match right_constant(s, e) {
                    (s, Some(idx)) => (s, Some((r, prop@, idx))),
                    (s, None) => (s, None),
                },
                None => (s, None),
            }
        } else {
            (s, None)
        },
        _ => (s, None),
    }
}

/// Add a constant to a property in place, and read it into `dst`.
#[verifier::opaque]
pub open spec fn add_constant_to_property(
    s: RView,
    r: u16,
    prop: Seq<char>,
    idx: u16,
    dst: u16,
) -> RView {
    let (s, name) = s.add_string(prop);
    let s = s.after_cache_slot().emit(
        ROp::AddConstToRegProp,
        seq![r, name, idx, s.next_cache_slot],
    );
    s.get_prop(dst, r, prop)
}

/// `local.dst = local.a + local.b`: the register, then each property with its
/// cache slot; and the name of the property that takes the sum.
#[verifier::opaque]
pub open spec fn rfuse_property_sum(
    s: RView,
    e: Expression,
    operator: Seq<char>,
) -> (RView, Option<(Seq<u16>, Seq<char>)>) {
    match property_sum(e) {
        Some((name, first, second, third)) => if operator == "="@ && s.locals.has(name) {
            let r = s.locals.map[name];
            let (t1, i1) = s.add_string(first);
            let u1 = t1.after_cache_slot();
            let (t2, i2) = u1.add_string(second);
            let u2 = t2.after_cache_slot();
            let (t3, i3) = u2.add_string(third);
            (
                t3.after_cache_slot(),
                Some(
                    (
                        seq![
                            r,
                            i1,
                            t1.next_cache_slot,
                            i2,
                            t2.next_cache_slot,
                            i3,
                            t3.next_cache_slot,
                        ],
                        third,
                    ),
                ),
            )
        } else {
            (s, None)
        },
        None => (s, None),
    }
}

/// The variable that a plain store to a named property goes to.
#[verifier::opaque]
pub open spec fn stored_property(
    s: RView,
    e: Expression,
    operator: Seq<char>,
) -> Option<(Slot, Seq<char>)> {
    match stored_element(e) {
        Some((object, Expression::String(prop))) => match object_name(object) {
            Some(name) => if operator != "="@ {
                None
            } else if s.locals.has(name) {
                Some((Slot::Local(s.locals.map[name]), prop@))
            } else if s.globals.has(name) {
                Some((Slot::Global(s.globals.map[name]), prop@))
            } else {
                None
            },
            None => None,
        },
        _ => None,
    }
}

/// Assign to an element. `e` is the assignment, the update that is worth the
/// assignment `operator` by one, or the target to which the hidden variable
/// `held` is assigned.
pub open spec fn rgen_index_assign(
    s: RView,
    e: Expression,
    operator: Seq<char>,
    held: Seq<char>,
    dst: u16,
) -> RView
    decreases e, 5int, 0int, 1int,
{
    index_assign_rrule(s, e, operator, held, dst)
}

#[verifier::opaque]
pub open spec fn index_assign_rrule(
    s: RView,
    e: Expression,
    operator: Seq<char>,
    held: Seq<char>,
    dst: u16,
) -> RView
    decreases e, 5int, 0int, 0int,
{
    match rfuse_property_add(s, e, operator) {
        (s, Some((r, prop, idx))) => add_constant_to_property(s, r, prop, idx, dst),
        (s, None) => match rfuse_property_sum(s, e, operator) {
            (s, Some((operands, prop))) => s.emit(ROp::AddRegPropsToRegProp, operands).get_prop(
                dst,
                operands[0],
                prop,
            ),
            (s, None) => match stored_property(s, e, operator) {
                Some((slot, prop)) => {
                    let (s, idx) = s.add_string(prop);
                    let cache = s.next_cache_slot;
                    let s = rgen_right_into(s.after_cache_slot(), e, held, dst);
                    match slot {
                        Slot::Local(r) => s.emit(ROp::SetProp, seq![r, idx, dst, cache]),
                        Slot::Global(g) => s.emit(ROp::SetGlobalProp, seq![g, idx, dst, cache]),
                    }
                },
                None => if is_logical_assignment(operator) {
                    rgen_logical_element(s, e, operator, held, dst)
                } else {
                    rgen_element_store(s, e, operator, held, dst)
                },
            },
        },
    }
}

/// `object[key] ||= value` and its kind.
pub open spec fn rgen_logical_element(
    s: RView,
    e: Expression,
    operator: Seq<char>,
    held: Seq<char>,
    dst: u16,
) -> RView
    decreases e, 4int, 0int, 1int,
{
    logical_element_rrule(s, e, operator, held, dst)
}

#[verifier::opaque]
pub open spec fn logical_element_rrule(
    s: RView,
    e: Expression,
    operator: Seq<char>,
    held: Seq<char>,
    dst: u16,
) -> RView
    decreases e, 4int, 0int, 0int,
{
    match stored_element(e) {
        Some((object, index)) => {
            let o = s.next_temp;
            let s = rgen_expr(s, object);
            let k = s.next_temp;
            let s = rgen_expr(s, index);
            let old = s.next_temp;
            let s = s.take_temp().emit(ROp::Index, seq![old, o, k]);
            let (s, skip) = if operator == "||="@ {
                (s.emit(ROp::JumpIfTruthy, seq![old, PLACEHOLDER]), s.here())
            } else if operator == "&&="@ {
                (s.emit(ROp::JumpIfNot, seq![old, PLACEHOLDER]), s.here())
            } else {
                let nullish = s.next_temp;
                let s = s.take_temp().emit(ROp::IsNullish, seq![nullish, old]);
                (s.emit(ROp::JumpIfNot, seq![nullish, PLACEHOLDER]), s.here())
            };
            let value = s.next_temp;
            let s = rgen_right(s, e, held).emit(ROp::SetIndex, seq![o, k, value]);
            let s = write_back(s, object, o).emit(ROp::Move, seq![dst, value]);
            let end = s.here();
            let s = s.emit(ROp::Jump, seq![PLACEHOLDER]);
            let s = s.patch(skip, s.here()).emit(ROp::Move, seq![dst, old]);
            s.patch(end, s.here())
        },
        None => s,
    }
}

/// `object[key] = value` and `object[key] op= value`.
pub open spec fn rgen_element_store(
    s: RView,
    e: Expression,
    operator: Seq<char>,
    held: Seq<char>,
    dst: u16,
) -> RView
    decreases e, 4int, 0int, 1int,
{
    element_store_rrule(s, e, operator, held, dst)
}

#[verifier::opaque]
pub open spec fn element_store_rrule(
    s: RView,
    e: Expression,
    operator: Seq<char>,
    held: Seq<char>,
    dst: u16,
) -> RView
    decreases e, 4int, 0int, 0int,
{
    match stored_element(e) {
        Some((object, index)) => if operator != "="@ && compound_rop(operator) is None {
            s.fail("unsupported assignment operator "@ + operator + " for index target"@)
        } else {
            let o = s.next_temp;
            let s = rgen_expr(s, object);
            let k = s.next_temp;
            let s = rgen_expr(s, index);
            let (s, value) = match compound_rop(operator) {
                Some(op) => {
                    let old = s.next_temp;
                    let s = s.take_temp().emit(ROp::Index, seq![old, o, k]);
                    let operand = s.next_temp;
                    let s = rgen_right(s, e, held);
                    let result = s.next_temp;
                    (s.take_temp().emit(op, seq![result, old, operand]), result)
                },
                None => (rgen_right(s, e, held), s.next_temp),
            };
            let s = s.emit(ROp::SetIndex, seq![o, k, value]);
            write_back(s, object, o).copy_reg(dst, value)
        },
        None => s,
    }
}

pub open spec fn rgen_update(s: RView, e: Expression, dst: u16) -> RView
    decreases e, 5int, 2int, 1int,
{
    update_rrule(s, e, dst)
}

#[verifier::opaque]
pub open spec fn update_rrule(s: RView, e: Expression, dst: u16) -> RView
    decreases e, 5int, 2int, 0int,
{
    match e {
        Expression::Update { target, operator, prefix } => {
            let assign = if operator@ == "++"@ {
                "+="@
            } else {
                "-="@
            };
            if operator@ != "++"@ && operator@ != "--"@ {
                s.fail("unsupported update operator "@ + operator@)
            } else if prefix {
                rgen_step(s, e, assign, dst)
            } else if may_repeat(*target) {
                let old = s.next_temp;
                let s = rgen_expr(s, *target).copy_reg(dst, old);
                rgen_step(s.take_temp(), e, assign, s.next_temp)
            } else {
                rgen_postfix_element(s, *target, assign, dst)
            }
        },
        _ => s,
    }
}

/// Change an element by one. Its old value is the result.
pub open spec fn rgen_postfix_element(
    s: RView,
    target: Expression,
    assign: Seq<char>,
    dst: u16,
) -> RView
    decreases target, 9int, 0int, 1int,
{
    postfix_element_rrule(s, target, assign, dst)
}

#[verifier::opaque]
pub open spec fn postfix_element_rrule(
    s: RView,
    target: Expression,
    assign: Seq<char>,
    dst: u16,
) -> RView
    decreases target, 9int, 0int, 0int,
{
    match target {
        Expression::Index { left, index } => {
            let o = s.next_temp;
            let s = rgen_expr(s, *left);
            let k = s.next_temp;
            let s = rgen_expr(s, *index);
            let old = s.next_temp;
            let s = s.take_temp().emit(ROp::Index, seq![old, o, k]);
            let one = s.next_temp;
            let s = s.take_temp().load_int(one, 1);
            let result = s.next_temp;
            let op = if assign == "+="@ {
                ROp::Add
            } else {
                ROp::Sub
            };
            let s = s.take_temp().emit(op, seq![result, old, one]);
            let s = s.emit(ROp::SetIndex, seq![o, k, result]);
            write_back(s, *left, o).copy_reg(dst, old)
        },
        _ => s,
    }
}

/// Change the target of an update by one.
pub open spec fn rgen_step(s: RView, e: Expression, assign: Seq<char>, dst: u16) -> RView
    decreases e, 5int, 1int, 1int,
{
    step_rrule(s, e, assign, dst)
}

#[verifier::opaque]
pub open spec fn step_rrule(s: RView, e: Expression, assign: Seq<char>, dst: u16) -> RView
    decreases e, 5int, 1int, 0int,
{
    match e {
        Expression::Update { target, .. } => match *target {
            Expression::Identifier(name) => rstep_name(s, name@, assign, dst),
            Expression::Index { .. } => rgen_index_assign(s, e, assign, Seq::empty(), dst),
            Expression::Array(_) => s.fail("only '=' supported for array destructuring assignment"@),
            Expression::Hash(_) => s.fail("only '=' supported for object destructuring assignment"@),
            _ => s.fail("invalid assignment target"@),
        },
        _ => s,
    }
}

/// Assign the parts of the value in a register to the targets of an array or
/// object literal.
pub open spec fn rgen_destructure(s: RView, target: Expression, source: u16) -> RView
    decreases target, 10int, 0int, 1int,
{
    destructure_rrule(s, target, source)
}

#[verifier::opaque]
pub open spec fn destructure_rrule(s: RView, target: Expression, source: u16) -> RView
    decreases target, 10int, 0int, 0int,
{
    match target {
        Expression::Array(items) => rgen_element_targets(s, items, source, 0),
        Expression::Hash(entries) => rgen_property_targets(s, entries, source, 0),
        _ => s,
    }
}

/// Destructure a hidden variable.
pub open spec fn rgen_nested(
    s: RView,
    target: Expression,
    held: Seq<char>,
    dst: u16,
) -> RView
    decreases target, 11int, 0int, 1int,
{
    nested_rrule(s, target, held, dst)
}

#[verifier::opaque]
pub open spec fn nested_rrule(
    s: RView,
    target: Expression,
    held: Seq<char>,
    dst: u16,
) -> RView
    decreases target, 11int, 0int, 0int,
{
    let source = s.next_temp;
    rgen_destructure(s.load_name_new(held), target, source).copy_reg(dst, source)
}

/// Keep a value in a hidden variable.
#[verifier::opaque]
pub open spec fn hold(s: RView, prefix: Seq<char>, value: u16) -> (RView, Seq<char>) {
    let name = s.hidden(prefix);
    (s.after_name().store_name(name, value), name)
}

pub open spec fn rgen_element_targets(
    s: RView,
    items: Vec<Expression>,
    source: u16,
    i: int,
) -> RView
    decreases items, 1int, items@.len() - i, 1int,
{
    element_targets_rrule(s, items, source, i)
}

#[verifier::opaque]
pub open spec fn element_targets_rrule(
    s: RView,
    items: Vec<Expression>,
    source: u16,
    i: int,
) -> RView
    decreases items, 1int, items@.len() - i, 0int,
{
    if i < 0 || i >= items@.len() {
        s
    } else {
        let value = element_reg(s, i);
        let s = match items@[i] {
            Expression::Spread { value: rest } => if i + 1 != items@.len() {
                s.fail("array rest element in assignment must be last"@)
            } else {
                match *rest {
                    Expression::Identifier(name) => assign_rest(s, source, i, name@),
                    _ => s.fail("array rest assignment requires identifier target"@),
                }
            },
            Expression::Identifier(name) => get_element(s, source, i).store_target(name@, value),
            Expression::Assign { left, operator, right } => if operator@ == "="@ {
                let s = rgen_default(get_element(s, source, i), *right, value);
                match *left {
                    Expression::Identifier(name) => s.store_target(name@, value),
                    Expression::Array(_) | Expression::Hash(_) => rgen_destructure(
                        s,
                        *left,
                        value,
                    ),
                    _ => s.fail(
                        "array destructuring supports identifier or nested pattern targets"@,
                    ),
                }
            } else {
                s.fail("array destructuring assignment supports identifier targets"@)
            },
            Expression::Array(_) | Expression::Hash(_) => {
                let (s, name) = hold(get_element(s, source, i), "arr_nested"@, value);
                rgen_nested(s, items@[i], name, value)
            },
            _ => s.fail("array destructuring assignment supports identifier targets"@),
        };
        rgen_element_targets(s, items, source, i + 1)
    }
}

/// Load the keys of the entries from position `i` on that are not the rest.
pub open spec fn rgen_entry_keys(s: RView, entries: Vec<HashEntry>, i: int) -> RView
    decreases entries, 1int, entries@.len() - i, 1int,
{
    entry_keys_rrule(s, entries, i)
}

#[verifier::opaque]
pub open spec fn entry_keys_rrule(s: RView, entries: Vec<HashEntry>, i: int) -> RView
    decreases entries, 1int, entries@.len() - i, 0int,
{
    if i < 0 || i >= entries@.len() {
        s
    } else {
        let s = match entries@[i] {
            HashEntry::Spread(_) => s,
            HashEntry::KeyValue { key, .. } => rgen_expr(s, key),
            HashEntry::Method { key, .. } => rgen_expr(s, key),
            HashEntry::Getter { key, .. } => rgen_expr(s, key),
            HashEntry::Setter { key, .. } => rgen_expr(s, key),
        };
        rgen_entry_keys(s, entries, i + 1)
    }
}

pub open spec fn rgen_property_targets(
    s: RView,
    entries: Vec<HashEntry>,
    source: u16,
    i: int,
) -> RView
    decreases entries, 2int, entries@.len() - i, 1int,
{
    property_targets_rrule(s, entries, source, i)
}

#[verifier::opaque]
pub open spec fn property_targets_rrule(
    s: RView,
    entries: Vec<HashEntry>,
    source: u16,
    i: int,
) -> RView
    decreases entries, 2int, entries@.len() - i, 0int,
{
    if i < 0 || i >= entries@.len() {
        s
    } else {
        let s = match entries@[i] {
            HashEntry::Spread(target) => match target {
                Expression::Identifier(name) => {
                    let base = s.next_temp;
                    let s = rgen_entry_keys(s, entries, 0);
                    let rest = s.next_temp;
                    let count = keyed_entries(entries@, entries@.len() as int) as u16;
                    s.take_temp().emit(
                        ROp::ObjectRest,
                        seq![rest, source, base, count],
                    ).store_target(name@, rest)
                },
                _ => s.fail("object rest destructuring requires identifier target"@),
            },
            HashEntry::KeyValue { key, value: target } => {
                let k = s.next_temp;
                let s = rgen_expr(s, key);
                let value = s.next_temp;
                let s = s.take_temp().emit(ROp::Index, seq![value, source, k]);
                rgen_property_target(s, target, value)
            },
            _ => s.fail("methods/getters/setters not valid in destructuring assignment"@),
        };
        rgen_property_targets(s, entries, source, i + 1)
    }
}

pub open spec fn rgen_property_target(s: RView, target: Expression, value: u16) -> RView
    decreases target, 12int, 0int, 1int,
{
    property_target_rrule(s, target, value)
}

#[verifier::opaque]
pub open spec fn property_target_rrule(s: RView, target: Expression, value: u16) -> RView
    decreases target, 12int, 0int, 0int,
{
    match target {
        Expression::Identifier(name) => s.store_target(name@, value),
        Expression::Assign { left, operator, right } => if operator@ == "="@ {
            let s = rgen_default(s, *right, value);
            match *left {
                Expression::Identifier(name) => s.store_target(name@, value),
                _ => {
                    let (s, name) = hold(s, "obj_nested"@, value);
                    rgen_assign_held(s.take_temp(), *left, name, s.next_temp)
                },
            }
        } else {
            s.fail("object destructuring supports identifier targets"@)
        },
        Expression::Array(_) | Expression::Hash(_) => {
            let (s, name) = hold(s, "obj_nested"@, value);
            rgen_nested(s.take_temp(), target, name, s.next_temp)
        },
        _ => s.fail("object destructuring supports identifier targets"@),
    }
}

/// Assign a hidden variable to a target that is not a variable.
pub open spec fn rgen_assign_held(s: RView, target: Expression, held: Seq<char>, dst: u16) -> RView
    decreases target, 12int, 0int, 1int,
{
    assign_held_rrule(s, target, held, dst)
}

#[verifier::opaque]
pub open spec fn assign_held_rrule(s: RView, target: Expression, held: Seq<char>, dst: u16) -> RView
    decreases target, 12int, 0int, 0int,
{
    match target {
        Expression::Array(_) | Expression::Hash(_) => rgen_nested(s, target, held, dst),
        Expression::Index { .. } => rgen_index_assign(s, target, "="@, held, dst),
        _ => s.fail("invalid assignment target"@),
    }
}

// Functions and classes

pub open spec fn rgen_function(
    s: RView,
    list: Vec<String>,
    body: Vec<Statement>,
    takes_this: bool,
    is_async: bool,
    is_generator: bool,
) -> (RView, FunctionView)
    decreases body, 4int, 0int, 1int,
{
    function_rrule(s, list, body, takes_this, is_async, is_generator)
}

#[verifier::opaque]
pub open spec fn function_rrule(
    s: RView,
    list: Vec<String>,
    body: Vec<Statement>,
    takes_this: bool,
    is_async: bool,
    is_generator: bool,
) -> (RView, FunctionView)
    decreases body, 4int, 0int, 0int,
{
    let p = parameters(list@, list@.len() as int);
    if s.err is Some {
        (s, blank_function())
    } else if p.err is Some {
        (s.fail(p.err->0), blank_function())
    } else {
        rgen_body(s, p.names, p.rest, body, takes_this, is_async, is_generator)
    }
}

/// A function with the given parameter names. Its function declarations come
/// first.
pub open spec fn rgen_body(
    s: RView,
    names: Seq<Seq<char>>,
    rest: Option<usize>,
    body: Vec<Statement>,
    takes_this: bool,
    is_async: bool,
    is_generator: bool,
) -> (RView, FunctionView)
    decreases body, 3int, 0int, 1int,
{
    body_rrule(s, names, rest, body, takes_this, is_async, is_generator)
}

#[verifier::opaque]
pub open spec fn body_rrule(
    s: RView,
    names: Seq<Seq<char>>,
    rest: Option<usize>,
    body: Vec<Statement>,
    takes_this: bool,
    is_async: bool,
    is_generator: bool,
) -> (RView, FunctionView)
    decreases body, 3int, 0int, 0int,
{
    let all = effective_parameters(names, takes_this);
    let inner = s.function_scope(all, stmts_captures(body, 0, false)).mirror_parameters(all, 0);
    let inner = inner.declare_all(var_names(body, 0), 0);
    let functions = Walk { pick: Pick::Functions, free: true, keep: false };
    let others = Walk { pick: Pick::Others, free: true, keep: false };
    let inner = rgen_walk(inner, body, 0, body@.len() as int, functions, None).0;
    let (inner, last) = rgen_walk(inner, body, 0, body@.len() as int, others, None);
    let inner = inner.finish_function(last);
    (
        s.after_function(inner),
        s.function(
            inner,
            match rest {
                Some(i) => i,
                None => names.len() as usize,
            },
            rest,
            takes_this,
            is_async,
            is_generator,
        ),
    )
}

/// The names that a field's initializer refers to from inside a function.
pub open spec fn field_captures(initializer: Option<Expression>) -> Set<Seq<char>> {
    match initializer {
        Some(value) => expr_captures(value, false),
        None => Set::empty(),
    }
}

/// The function that computes a field's initial value.
pub open spec fn rgen_field(s: RView, initializer: Option<Expression>) -> (RView, FunctionView)
    decreases initializer, 3int, 0int, 1int,
{
    field_rrule(s, initializer)
}

#[verifier::opaque]
pub open spec fn field_rrule(s: RView, initializer: Option<Expression>) -> (RView, FunctionView)
    decreases initializer, 3int, 0int, 0int,
{
    let all = seq!["this"@];
    let inner = s.function_scope(all, field_captures(initializer)).mirror_parameters(all, 0);
    let r = inner.next_temp;
    let inner = match initializer {
        Some(value) => rgen_expr(inner, value),
        None => inner.load_name_new("undefined"@),
    };
    let inner = inner.emit(ROp::Return, seq![r]).free_temps().finish_function(None);
    (s.after_function(inner), s.function(inner, 0, None, true, false, false))
}

/// A class that has only what it inherits, with what the constructors of its
/// ancestors need.
#[verifier::opaque]
pub open spec fn rderived_class(
    name: Seq<char>,
    parent: Option<(Seq<char>, ClassView)>,
) -> ClassView {
    let bare = derived_class(name, parent);
    match parent {
        Some((_, parent)) => if parent.super_methods.order.len() > 0 {
            ClassView {
                super_constructor_chain: seq![
                    SuperLevelView {
                        methods: parent.super_methods,
                        getters: parent.super_getters,
                        setters: parent.super_setters,
                    },
                ] + parent.super_constructor_chain,
                ..bare
            }
        } else {
            bare
        },
        None => bare,
    }
}

/// A class with the members from position `i` on added.
pub open spec fn rgen_members(
    s: RView,
    class: ClassView,
    members: Vec<ClassMember>,
    i: int,
) -> (RView, ClassView)
    decreases members, 1int, members@.len() - i, 1int,
{
    members_rrule(s, class, members, i)
}

#[verifier::opaque]
pub open spec fn members_rrule(
    s: RView,
    class: ClassView,
    members: Vec<ClassMember>,
    i: int,
) -> (RView, ClassView)
    decreases members, 1int, members@.len() - i, 0int,
{
    if i < 0 || i >= members@.len() {
        (s, class)
    } else {
        match members@[i] {
            ClassMember::Method(m) => {
                let (s, f) = rgen_function(s, m.parameters, m.body, true, false, false);
                let class = with_method(class, m.name@, m.is_static, m.is_getter, m.is_setter, f);
                rgen_members(s, class, members, i + 1)
            },
            ClassMember::Field { name, initializer, is_static } => {
                let (s, f) = rgen_field(s, initializer);
                rgen_members(s, with_field(class, name@, is_static, f), members, i + 1)
            },
            ClassMember::StaticBlock { body } => {
                let (s, f) = rgen_body(s, Seq::empty(), None, body, true, false, false);
                let class = ClassView {
                    static_initializers: class.static_initializers.push(
                        StaticInitializerView::Block(f),
                    ),
                    ..class
                };
                rgen_members(s, class, members, i + 1)
            },
        }
    }
}

/// A class, filed under its name if it has one.
pub open spec fn rgen_class(
    s: RView,
    name: Option<String>,
    extends: Option<Box<Expression>>,
    members: Vec<ClassMember>,
) -> (RView, ClassView)
    decreases members, 4int, 0int, 1int,
{
    class_rrule(s, name, extends, members)
}

#[verifier::opaque]
pub open spec fn class_rrule(
    s: RView,
    name: Option<String>,
    extends: Option<Box<Expression>>,
    members: Vec<ClassMember>,
) -> (RView, ClassView)
    decreases members, 4int, 0int, 0int,
{
    let own_name = match name {
        Some(n) => n@,
        None => ""@,
    };
    let bare = rderived_class(own_name, parent_class(parent_name(extends), s.class_defs));
    let (s, class) = rgen_members(s, bare, members, 0);
    match name {
        Some(n) => (s.define_class(n@, class), class),
        None => (s, class),
    }
}

/// The state in which the compilation of a program starts: like that of a
/// function whose captured names are known.
pub open spec fn plain_start(s: RView, program: Program) -> RView {
    RView {
        is_function_scope: true,
        captured: Some(stmts_captures(program.statements, 0, false)),
        ..s
    }
}

/// The state in which the compilation of a program starts whose names are all
/// captured.
pub open spec fn persistent_start(s: RView) -> RView {
    RView { is_function_scope: true, captured: None, ..s }
}

/// A whole program.
#[verifier::opaque]
pub open spec fn rgen_program(s: RView, program: Program) -> RView {
    let stmts = program.statements;
    let s = s.declare_all(var_names(stmts, 0), 0);
    let (s, last) = rgen_walk(s, stmts, 0, stmts@.len() as int, freeing_walk(), None);
    match last {
        Some(r) => s.emit(ROp::HaltValue, seq![r]),
        None => s.emit(ROp::Halt, seq![]),
    }
}

} // verus!
