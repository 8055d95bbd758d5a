//! Names that nested functions refer to.
//!
//! Only variables with such a name need a global slot beside their register.
use vstd::prelude::*;

use crate::ast::{
    ArrayBindingItem, BindingPattern, BindingTarget, ClassMember, Expression, ForBinding,
    HashEntry, ObjectBindingItem, Statement, SwitchCase,
};
use crate::names::NameSet;

verus! {

/// The names that statements from position `i` on refer to from inside a
/// function. With `in_func` the statements stand inside one themselves.
pub open spec fn stmts_captures(v: Vec<Statement>, i: int, in_func: bool) -> Set<Seq<char>>
    decreases v, 1int, v@.len() - i,
{
    if i < 0 || i >= v@.len() {
        Set::empty()
    } else {
        stmt_captures(v@[i], in_func).union(stmts_captures(v, i + 1, in_func))
    }
}

pub open spec fn optional_stmts_captures(v: Option<Vec<Statement>>, in_func: bool) -> Set<
    Seq<char>,
>
    decreases v, 0int, 0int,
{
    match v {
        Some(v) => stmts_captures(v, 0, in_func),
        None => Set::empty(),
    }
}

pub open spec fn optional_expr_captures(e: Option<Expression>, in_func: bool) -> Set<Seq<char>>
    decreases e, 0int, 0int,
{
    match e {
        Some(e) => expr_captures(e, in_func),
        None => Set::empty(),
    }
}

pub open spec fn exprs_captures(v: Vec<Expression>, i: int, in_func: bool) -> Set<Seq<char>>
    decreases v, 1int, v@.len() - i,
{
    if i < 0 || i >= v@.len() {
        Set::empty()
    } else {
        expr_captures(v@[i], in_func).union(exprs_captures(v, i + 1, in_func))
    }
}

pub open spec fn cases_captures(v: Vec<SwitchCase>, i: int, in_func: bool) -> Set<Seq<char>>
    decreases v, 1int, v@.len() - i,
{
    if i < 0 || i >= v@.len() {
        Set::empty()
    } else {
        optional_expr_captures(v@[i].test, in_func).union(
            stmts_captures(v@[i].consequent, 0, in_func),
        ).union(cases_captures(v, i + 1, in_func))
    }
}

/// The names that the defaults and keys of a pattern refer to.
pub open spec fn pattern_captures(p: BindingPattern, in_func: bool) -> Set<Seq<char>>
    decreases p, 0int, 0int,
{
    match p {
        BindingPattern::Array(items) => array_items_captures(items, 0, in_func),
        BindingPattern::Object(items) => object_items_captures(items, 0, in_func),
    }
}

pub open spec fn target_captures(t: BindingTarget, in_func: bool) -> Set<Seq<char>>
    decreases t, 0int, 0int,
{
    match t {
        BindingTarget::Identifier(_) => Set::empty(),
        BindingTarget::Pattern(p) => pattern_captures(*p, in_func),
    }
}

pub open spec fn array_item_captures(item: ArrayBindingItem, in_func: bool) -> Set<Seq<char>>
    decreases item, 0int, 0int,
{
    match item {
        ArrayBindingItem::Binding { target, default_value } => target_captures(
            target,
            in_func,
        ).union(optional_expr_captures(default_value, in_func)),
        _ => Set::empty(),
    }
}

pub open spec fn array_items_captures(
    v: Vec<ArrayBindingItem>,
    i: int,
    in_func: bool,
) -> Set<Seq<char>>
    decreases v, 1int, v@.len() - i,
{
    if i < 0 || i >= v@.len() {
        Set::empty()
    } else {
        array_item_captures(v@[i], in_func).union(array_items_captures(v, i + 1, in_func))
    }
}

pub open spec fn object_item_captures(item: ObjectBindingItem, in_func: bool) -> Set<Seq<char>>
    decreases item, 0int, 0int,
{
    expr_captures(item.key, in_func).union(target_captures(item.target, in_func)).union(
        optional_expr_captures(item.default_value, in_func),
    )
}

pub open spec fn object_items_captures(
    v: Vec<ObjectBindingItem>,
    i: int,
    in_func: bool,
) -> Set<Seq<char>>
    decreases v, 1int, v@.len() - i,
{
    if i < 0 || i >= v@.len() {
        Set::empty()
    } else {
        object_item_captures(v@[i], in_func).union(object_items_captures(v, i + 1, in_func))
    }
}

pub open spec fn binding_captures(b: ForBinding, in_func: bool) -> Set<Seq<char>>
    decreases b, 0int, 0int,
{
    match b {
        ForBinding::Identifier(_) => Set::empty(),
        ForBinding::Pattern(p) => pattern_captures(p, in_func),
    }
}

/// The names that the parent of a class refers to.
pub open spec fn parent_captures(extends: Option<Box<Expression>>, in_func: bool) -> Set<Seq<char>>
    decreases extends, 0int, 0int,
{
    match extends {
        Some(parent) => expr_captures(*parent, in_func),
        None => Set::empty(),
    }
}

/// The names that a member of a class refers to from inside a function. The
/// initializer of a field is run as a function.
pub open spec fn member_captures(m: ClassMember) -> Set<Seq<char>>
    decreases m, 0int, 0int,
{
    match m {
        ClassMember::Method(method) => stmts_captures(method.body, 0, true),
        ClassMember::Field { initializer, .. } => optional_expr_captures(initializer, true),
        ClassMember::StaticBlock { body } => stmts_captures(body, 0, true),
    }
}

pub open spec fn members_captures(v: Vec<ClassMember>, i: int) -> Set<Seq<char>>
    decreases v, 1int, v@.len() - i,
{
    if i < 0 || i >= v@.len() {
        Set::empty()
    } else {
        member_captures(v@[i]).union(members_captures(v, i + 1))
    }
}

pub open spec fn entry_captures(e: HashEntry, in_func: bool) -> Set<Seq<char>>
    decreases e, 0int, 0int,
{
    match e {
        HashEntry::KeyValue { key, value } => expr_captures(key, in_func).union(
            expr_captures(value, in_func),
        ),
        HashEntry::Method { key, body, .. } => expr_captures(key, in_func).union(
            stmts_captures(body, 0, true),
        ),
        HashEntry::Spread(value) => expr_captures(value, in_func),
        HashEntry::Getter { body, .. } => stmts_captures(body, 0, true),
        HashEntry::Setter { body, .. } => stmts_captures(body, 0, true),
    }
}

pub open spec fn entries_captures(v: Vec<HashEntry>, i: int, in_func: bool) -> Set<Seq<char>>
    decreases v, 1int, v@.len() - i,
{
    if i < 0 || i >= v@.len() {
        Set::empty()
    } else {
        entry_captures(v@[i], in_func).union(entries_captures(v, i + 1, in_func))
    }
}

/// The names that a statement refers to from inside a function.
pub open spec fn stmt_captures(stmt: Statement, in_func: bool) -> Set<Seq<char>>
    decreases stmt, 0int, 0int,
{
    match stmt {
        Statement::Let { value, .. } => expr_captures(value, in_func),
        Statement::LetPattern { pattern, value, .. } => pattern_captures(pattern, in_func).union(
            expr_captures(value, in_func),
        ),
        Statement::Return { value } => expr_captures(value, in_func),
        Statement::ReturnVoid => Set::empty(),
        Statement::Expression(e) => expr_captures(e, in_func),
        Statement::Block(body) => stmts_captures(body, 0, in_func),
        Statement::MultiLet(body) => stmts_captures(body, 0, in_func),
        Statement::While { condition, body } => expr_captures(condition, in_func).union(
            stmts_captures(body, 0, in_func),
        ),
        Statement::DoWhile { body, condition } => stmts_captures(body, 0, in_func).union(
            expr_captures(condition, in_func),
        ),
        Statement::For { init, condition, update, body } => (match init {
            Some(first) => stmt_captures(*first, in_func),
            None => Set::empty(),
        }).union(optional_expr_captures(condition, in_func)).union(
            optional_expr_captures(update, in_func),
        ).union(stmts_captures(body, 0, in_func)),
        Statement::ForOf { binding, iterable, body } => binding_captures(binding, in_func).union(
            expr_captures(iterable, in_func),
        ).union(stmts_captures(body, 0, in_func)),
        Statement::ForIn { iterable, body, .. } => expr_captures(iterable, in_func).union(
            stmts_captures(body, 0, in_func),
        ),
        Statement::FunctionDecl { body, .. } => stmts_captures(body, 0, true),
        Statement::ClassDecl { extends, members, .. } => parent_captures(extends, in_func).union(
            members_captures(members, 0),
        ),
        Statement::Throw { value } => expr_captures(value, in_func),
        Statement::Try { try_block, catch_block, finally_block, .. } => stmts_captures(
            try_block,
            0,
            in_func,
        ).union(optional_stmts_captures(catch_block, in_func)).union(
            optional_stmts_captures(finally_block, in_func),
        ),
        Statement::Switch { discriminant, cases } => expr_captures(discriminant, in_func).union(
            cases_captures(cases, 0, in_func),
        ),
        Statement::Labeled { statement, .. } => stmt_captures(*statement, in_func),
        Statement::Break { .. } => Set::empty(),
        Statement::Continue { .. } => Set::empty(),
        Statement::Debugger => Set::empty(),
    }
}

/// The names that an expression refers to from inside a function. An arrow
/// function that uses `this` refers to it by name.
pub open spec fn expr_captures(e: Expression, in_func: bool) -> Set<Seq<char>>
    decreases e, 0int, 0int,
{
    match e {
        Expression::Identifier(name) => if in_func {
            Set::empty().insert(name@)
        } else {
            Set::empty()
        },
        Expression::Integer(_)
        | Expression::Float(_)
        | Expression::String(_)
        | Expression::Boolean(_)
        | Expression::Null
        | Expression::This
        | Expression::Super
        | Expression::NewTarget
        | Expression::ImportMeta
        | Expression::RegExp { .. } => Set::empty(),
        Expression::Array(items) => exprs_captures(items, 0, in_func),
        Expression::Hash(entries) => entries_captures(entries, 0, in_func),
        Expression::Prefix { right, .. } => expr_captures(*right, in_func),
        Expression::Typeof { value } => expr_captures(*value, in_func),
        Expression::Void { value } => expr_captures(*value, in_func),
        Expression::Delete { value } => expr_captures(*value, in_func),
        Expression::Await { value } => expr_captures(*value, in_func),
        Expression::Spread { value } => expr_captures(*value, in_func),
        Expression::Yield { value, .. } => expr_captures(*value, in_func),
        Expression::Sequence(items) => exprs_captures(items, 0, in_func),
        Expression::Infix { left, right, .. } => expr_captures(*left, in_func).union(
            expr_captures(*right, in_func),
        ),
        Expression::Assign { left, right, .. } => expr_captures(*left, in_func).union(
            expr_captures(*right, in_func),
        ),
        Expression::Update { target, .. } => expr_captures(*target, in_func),
        Expression::If { condition, consequence, alternative } => expr_captures(
            *condition,
            in_func,
        ).union(stmts_captures(consequence, 0, in_func)).union(
            optional_stmts_captures(alternative, in_func),
        ),
        Expression::Function { body, is_arrow, .. } => if is_arrow && (stmts_captures(
            body,
            0,
            true,
        ).contains("this"@) || stmts_use_this(body, 0)) {
            stmts_captures(body, 0, true).insert("this"@)
        } else {
            stmts_captures(body, 0, true)
        },
        Expression::Call { function, arguments } => expr_captures(*function, in_func).union(
            exprs_captures(arguments, 0, in_func),
        ),
        Expression::OptionalCall { function, arguments } => expr_captures(
            *function,
            in_func,
        ).union(exprs_captures(arguments, 0, in_func)),
        Expression::New { callee, arguments } => expr_captures(*callee, in_func).union(
            exprs_captures(arguments, 0, in_func),
        ),
        Expression::OptionalIndex { left, index } => expr_captures(*left, in_func).union(
            expr_captures(*index, in_func),
        ),
        Expression::Index { left, index } => expr_captures(*left, in_func).union(
            expr_captures(*index, in_func),
        ),
        Expression::Class { extends, members, .. } => parent_captures(extends, in_func).union(
            members_captures(members, 0),
        ),
    }
}

/// Whether one of the statements from position `i` on uses `this`, other than inside a
/// nested function with a `this` of its own.
pub open spec fn stmts_use_this(v: Vec<Statement>, i: int) -> bool
    decreases v, 1int, v@.len() - i,
{
    0 <= i < v@.len() && (stmt_uses_this(v@[i]) || stmts_use_this(v, i + 1))
}

pub open spec fn exprs_use_this(v: Vec<Expression>, i: int) -> bool
    decreases v, 1int, v@.len() - i,
{
    0 <= i < v@.len() && (expr_uses_this(v@[i]) || exprs_use_this(v, i + 1))
}

pub open spec fn optional_stmts_use_this(v: Option<Vec<Statement>>) -> bool
    decreases v, 0int, 0int,
{
    match v {
        Some(v) => stmts_use_this(v, 0),
        None => false,
    }
}

pub open spec fn optional_expr_uses_this(e: Option<Expression>) -> bool
    decreases e, 0int, 0int,
{
    match e {
        Some(e) => expr_uses_this(e),
        None => false,
    }
}

pub open spec fn parent_uses_this(extends: Option<Box<Expression>>) -> bool
    decreases extends, 0int, 0int,
{
    match extends {
        Some(parent) => expr_uses_this(*parent),
        None => false,
    }
}

pub open spec fn cases_use_this(v: Vec<SwitchCase>, i: int) -> bool
    decreases v, 1int, v@.len() - i,
{
    0 <= i < v@.len() && (optional_expr_uses_this(v@[i].test) || stmts_use_this(
        v@[i].consequent,
        0,
    ) || cases_use_this(v, i + 1))
}

/// Whether an entry of an object literal uses `this`. Methods and accessors have a
/// `this` of their own.
pub open spec fn entry_uses_this(e: HashEntry) -> bool
    decreases e, 0int, 0int,
{
    match e {
        HashEntry::KeyValue { key, value } => expr_uses_this(key) || expr_uses_this(value),
        HashEntry::Method { key, .. } => expr_uses_this(key),
        HashEntry::Spread(value) => expr_uses_this(value),
        HashEntry::Getter { key, .. } => expr_uses_this(key),
        HashEntry::Setter { key, .. } => expr_uses_this(key),
    }
}

pub open spec fn entries_use_this(v: Vec<HashEntry>, i: int) -> bool
    decreases v, 1int, v@.len() - i,
{
    0 <= i < v@.len() && (entry_uses_this(v@[i]) || entries_use_this(v, i + 1))
}

pub open spec fn pattern_uses_this(p: BindingPattern) -> bool
    decreases p, 0int, 0int,
{
    match p {
        BindingPattern::Array(items) => array_items_use_this(items, 0),
        BindingPattern::Object(items) => object_items_use_this(items, 0),
    }
}

pub open spec fn target_uses_this(t: BindingTarget) -> bool
    decreases t, 0int, 0int,
{
    match t {
        BindingTarget::Identifier(_) => false,
        BindingTarget::Pattern(p) => pattern_uses_this(*p),
    }
}

pub open spec fn array_item_uses_this(item: ArrayBindingItem) -> bool
    decreases item, 0int, 0int,
{
    match item {
        ArrayBindingItem::Binding { target, default_value } => target_uses_this(target)
            || optional_expr_uses_this(default_value),
        _ => false,
    }
}

pub open spec fn array_items_use_this(v: Vec<ArrayBindingItem>, i: int) -> bool
    decreases v, 1int, v@.len() - i,
{
    0 <= i < v@.len() && (array_item_uses_this(v@[i]) || array_items_use_this(v, i + 1))
}

pub open spec fn object_item_uses_this(item: ObjectBindingItem) -> bool
    decreases item, 0int, 0int,
{
    expr_uses_this(item.key) || target_uses_this(item.target) || optional_expr_uses_this(
        item.default_value,
    )
}

pub open spec fn object_items_use_this(v: Vec<ObjectBindingItem>, i: int) -> bool
    decreases v, 1int, v@.len() - i,
{
    0 <= i < v@.len() && (object_item_uses_this(v@[i]) || object_items_use_this(v, i + 1))
}

pub open spec fn binding_uses_this(b: ForBinding) -> bool
    decreases b, 0int, 0int,
{
    match b {
        ForBinding::Identifier(_) => false,
        ForBinding::Pattern(p) => pattern_uses_this(p),
    }
}

pub open spec fn stmt_uses_this(stmt: Statement) -> bool
    decreases stmt, 0int, 0int,
{
    match stmt {
        Statement::Let { value, .. } => expr_uses_this(value),
        Statement::LetPattern { pattern, value, .. } => pattern_uses_this(pattern)
            || expr_uses_this(value),
        Statement::Return { value } => expr_uses_this(value),
        Statement::Expression(e) => expr_uses_this(e),
        Statement::Block(body) => stmts_use_this(body, 0),
        Statement::MultiLet(body) => stmts_use_this(body, 0),
        Statement::While { condition, body } => expr_uses_this(condition) || stmts_use_this(
            body,
            0,
        ),
        Statement::DoWhile { body, condition } => stmts_use_this(body, 0) || expr_uses_this(
            condition,
        ),
        Statement::For { init, condition, update, body } => (match init {
            Some(first) => stmt_uses_this(*first),
            None => false,
        }) || optional_expr_uses_this(condition) || optional_expr_uses_this(update)
            || stmts_use_this(body, 0),
        Statement::ForOf { binding, iterable, body } => binding_uses_this(binding)
            || expr_uses_this(iterable) || stmts_use_this(body, 0),
        Statement::ForIn { iterable, body, .. } => expr_uses_this(iterable) || stmts_use_this(
            body,
            0,
        ),
        Statement::ClassDecl { extends, .. } => parent_uses_this(extends),
        Statement::Throw { value } => expr_uses_this(value),
        Statement::Try { try_block, catch_block, finally_block, .. } => stmts_use_this(
            try_block,
            0,
        ) || optional_stmts_use_this(catch_block) || optional_stmts_use_this(finally_block),
        Statement::Switch { discriminant, cases } => expr_uses_this(discriminant)
            || cases_use_this(cases, 0),
        Statement::Labeled { statement, .. } => stmt_uses_this(*statement),
        Statement::FunctionDecl { .. }
        | Statement::ReturnVoid
        | Statement::Break { .. }
        | Statement::Continue { .. }
        | Statement::Debugger => false,
    }
}

pub open spec fn expr_uses_this(e: Expression) -> bool
    decreases e, 0int, 0int,
{
    match e {
        Expression::This => true,
        Expression::Identifier(_)
        | Expression::Integer(_)
        | Expression::Float(_)
        | Expression::String(_)
        | Expression::Boolean(_)
        | Expression::Null
        | Expression::Super
        | Expression::NewTarget
        | Expression::ImportMeta
        | Expression::RegExp { .. } => false,
        Expression::Array(items) => exprs_use_this(items, 0),
        Expression::Hash(entries) => entries_use_this(entries, 0),
        Expression::Prefix { right, .. } => expr_uses_this(*right),
        Expression::Typeof { value } => expr_uses_this(*value),
        Expression::Void { value } => expr_uses_this(*value),
        Expression::Delete { value } => expr_uses_this(*value),
        Expression::Await { value } => expr_uses_this(*value),
        Expression::Spread { value } => expr_uses_this(*value),
        Expression::Yield { value, .. } => expr_uses_this(*value),
        Expression::Sequence(items) => exprs_use_this(items, 0),
        Expression::Infix { left, right, .. } => expr_uses_this(*left) || expr_uses_this(*right),
        Expression::Assign { left, right, .. } => expr_uses_this(*left) || expr_uses_this(*right),
        Expression::Update { target, .. } => expr_uses_this(*target),
        Expression::If { condition, consequence, alternative } => expr_uses_this(*condition)
            || stmts_use_this(consequence, 0) || optional_stmts_use_this(alternative),
        Expression::Function { is_arrow, body, .. } => is_arrow && stmts_use_this(body, 0),
        Expression::Call { function, arguments } => expr_uses_this(*function) || exprs_use_this(
            arguments,
            0,
        ),
        Expression::OptionalCall { function, arguments } => expr_uses_this(*function)
            || exprs_use_this(arguments, 0),
        Expression::New { callee, arguments } => expr_uses_this(*callee) || exprs_use_this(
            arguments,
            0,
        ),
        Expression::OptionalIndex { left, index } => expr_uses_this(*left) || expr_uses_this(
            *index,
        ),
        Expression::Index { left, index } => expr_uses_this(*left) || expr_uses_this(*index),
        Expression::Class { extends, .. } => parent_uses_this(extends),
    }
}

/// The names that statements refer to from inside nested functions.
pub fn scan_captured_names(stmts: &Vec<Statement>) -> (captured: NameSet)
    ensures
        captured@ == stmts_captures(*stmts, 0, false),
{
    let mut captured = NameSet::new();
    scan_stmts_captures(stmts, &mut captured, false);
    assert(captured@ =~= stmts_captures(*stmts, 0, false));
    captured
}

fn scan_stmts_captures(stmts: &Vec<Statement>, out: &mut NameSet, in_func: bool)
    ensures
        final(out)@ == old(out)@.union(stmts_captures(*stmts, 0, in_func)),
    decreases *stmts, 1int, stmts@.len(),
{
    let mut i: usize = 0;
    while i < stmts.len()
        invariant
            0 <= i <= stmts@.len(),
            out@.union(stmts_captures(*stmts, i as int, in_func)) == old(out)@.union(
                stmts_captures(*stmts, 0, in_func),
            ),
        decreases stmts@.len() - i,
    {
        let ghost before = out@;
        scan_stmt_captures(&stmts[i], out, in_func);
        assert(out@.union(stmts_captures(*stmts, i + 1, in_func)) =~= before.union(
            stmts_captures(*stmts, i as int, in_func),
        ));
        i += 1;
    }
    assert(out@.union(Set::empty()) =~= out@);
}

fn scan_optional_stmts_captures(stmts: &Option<Vec<Statement>>, out: &mut NameSet, in_func: bool)
    ensures
        final(out)@ == old(out)@.union(optional_stmts_captures(*stmts, in_func)),
    decreases *stmts, 0int, 0int,
{
    match stmts {
        Some(v) => scan_stmts_captures(v, out, in_func),
        None => {
            assert(out@.union(Set::empty()) =~= out@);
        },
    }
}

fn scan_optional_expr_captures(e: &Option<Expression>, out: &mut NameSet, in_func: bool)
    ensures
        final(out)@ == old(out)@.union(optional_expr_captures(*e, in_func)),
    decreases *e, 0int, 0int,
{
    match e {
        Some(e) => scan_expr_captures(e, out, in_func),
        None => {
            assert(out@.union(Set::empty()) =~= out@);
        },
    }
}

fn scan_exprs_captures(items: &Vec<Expression>, out: &mut NameSet, in_func: bool)
    ensures
        final(out)@ == old(out)@.union(exprs_captures(*items, 0, in_func)),
    decreases *items, 1int, items@.len(),
{
    let mut i: usize = 0;
    while i < items.len()
        invariant
            0 <= i <= items@.len(),
            out@.union(exprs_captures(*items, i as int, in_func)) == old(out)@.union(
                exprs_captures(*items, 0, in_func),
            ),
        decreases items@.len() - i,
    {
        let ghost before = out@;
        scan_expr_captures(&items[i], out, in_func);
        assert(out@.union(exprs_captures(*items, i + 1, in_func)) =~= before.union(
            exprs_captures(*items, i as int, in_func),
        ));
        i += 1;
    }
    assert(out@.union(Set::empty()) =~= out@);
}

fn scan_cases_captures(cases: &Vec<SwitchCase>, out: &mut NameSet, in_func: bool)
    ensures
        final(out)@ == old(out)@.union(cases_captures(*cases, 0, in_func)),
    decreases *cases, 1int, cases@.len(),
{
    let mut i: usize = 0;
    while i < cases.len()
        invariant
            0 <= i <= cases@.len(),
            out@.union(cases_captures(*cases, i as int, in_func)) == old(out)@.union(
                cases_captures(*cases, 0, in_func),
            ),
        decreases cases@.len() - i,
    {
        let ghost before = out@;
        assert(decreases_to!(*cases => cases@[i as int]));
        scan_optional_expr_captures(&cases[i].test, out, in_func);
        scan_stmts_captures(&cases[i].consequent, out, in_func);
        assert(out@.union(cases_captures(*cases, i + 1, in_func)) =~= before.union(
            cases_captures(*cases, i as int, in_func),
        ));
        i += 1;
    }
    assert(out@.union(Set::empty()) =~= out@);
}

fn scan_pattern_captures(p: &BindingPattern, out: &mut NameSet, in_func: bool)
    ensures
        final(out)@ == old(out)@.union(pattern_captures(*p, in_func)),
    decreases *p, 0int, 0int,
{
    match p {
        BindingPattern::Array(items) => scan_array_items_captures(items, out, in_func),
        BindingPattern::Object(items) => scan_object_items_captures(items, out, in_func),
    }
}

fn scan_target_captures(t: &BindingTarget, out: &mut NameSet, in_func: bool)
    ensures
        final(out)@ == old(out)@.union(target_captures(*t, in_func)),
    decreases *t, 0int, 0int,
{
    match t {
        BindingTarget::Identifier(_) => {
            assert(out@.union(Set::empty()) =~= out@);
        },
        BindingTarget::Pattern(p) => scan_pattern_captures(p, out, in_func),
    }
}

fn scan_array_items_captures(items: &Vec<ArrayBindingItem>, out: &mut NameSet, in_func: bool)
    ensures
        final(out)@ == old(out)@.union(array_items_captures(*items, 0, in_func)),
    decreases *items, 1int, items@.len(),
{
    let mut i: usize = 0;
    while i < items.len()
        invariant
            0 <= i <= items@.len(),
            out@.union(array_items_captures(*items, i as int, in_func)) == old(out)@.union(
                array_items_captures(*items, 0, in_func),
            ),
        decreases items@.len() - i,
    {
        let ghost before = out@;
        assert(decreases_to!(*items => items@[i as int]));
        if let ArrayBindingItem::Binding { target, default_value } = &items[i] {
            scan_target_captures(target, out, in_func);
            scan_optional_expr_captures(default_value, out, in_func);
        }
        assert(out@ =~= before.union(array_item_captures(items@[i as int], in_func)));
        assert(out@.union(array_items_captures(*items, i + 1, in_func)) =~= before.union(
            array_items_captures(*items, i as int, in_func),
        ));
        i += 1;
    }
    assert(out@.union(Set::empty()) =~= out@);
}

fn scan_object_items_captures(items: &Vec<ObjectBindingItem>, out: &mut NameSet, in_func: bool)
    ensures
        final(out)@ == old(out)@.union(object_items_captures(*items, 0, in_func)),
    decreases *items, 1int, items@.len(),
{
    let mut i: usize = 0;
    while i < items.len()
        invariant
            0 <= i <= items@.len(),
            out@.union(object_items_captures(*items, i as int, in_func)) == old(out)@.union(
                object_items_captures(*items, 0, in_func),
            ),
        decreases items@.len() - i,
    {
        let ghost before = out@;
        assert(decreases_to!(*items => items@[i as int]));
        scan_expr_captures(&items[i].key, out, in_func);
        scan_target_captures(&items[i].target, out, in_func);
        scan_optional_expr_captures(&items[i].default_value, out, in_func);
        assert(out@ =~= before.union(object_item_captures(items@[i as int], in_func)));
        assert(out@.union(object_items_captures(*items, i + 1, in_func)) =~= before.union(
            object_items_captures(*items, i as int, in_func),
        ));
        i += 1;
    }
    assert(out@.union(Set::empty()) =~= out@);
}

fn scan_binding_captures(b: &ForBinding, out: &mut NameSet, in_func: bool)
    ensures
        final(out)@ == old(out)@.union(binding_captures(*b, in_func)),
    decreases *b, 0int, 0int,
{
    match b {
        ForBinding::Identifier(_) => {
            assert(out@.union(Set::empty()) =~= out@);
        },
        ForBinding::Pattern(p) => scan_pattern_captures(p, out, in_func),
    }
}

fn scan_parent_captures(extends: &Option<Box<Expression>>, out: &mut NameSet, in_func: bool)
    ensures
        final(out)@ == old(out)@.union(parent_captures(*extends, in_func)),
    decreases *extends, 0int, 0int,
{
    match extends {
        Some(parent) => scan_expr_captures(parent, out, in_func),
        None => {
            assert(out@.union(Set::empty()) =~= out@);
        },
    }
}

fn scan_members_captures(members: &Vec<ClassMember>, out: &mut NameSet)
    ensures
        final(out)@ == old(out)@.union(members_captures(*members, 0)),
    decreases *members, 1int, members@.len(),
{
    let mut i: usize = 0;
    while i < members.len()
        invariant
            0 <= i <= members@.len(),
            out@.union(members_captures(*members, i as int)) == old(out)@.union(
                members_captures(*members, 0),
            ),
        decreases members@.len() - i,
    {
        let ghost before = out@;
        assert(decreases_to!(*members => members@[i as int]));
        match &members[i] {
            ClassMember::Method(method) => scan_stmts_captures(&method.body, out, true),
            ClassMember::Field { initializer, .. } => scan_optional_expr_captures(
                initializer,
                out,
                true,
            ),
            ClassMember::StaticBlock { body } => scan_stmts_captures(body, out, true),
        }
        assert(out@ == before.union(member_captures(members@[i as int])));
        assert(out@.union(members_captures(*members, i + 1)) =~= before.union(
            members_captures(*members, i as int),
        ));
        i += 1;
    }
    assert(out@.union(Set::empty()) =~= out@);
}

fn scan_entries_captures(entries: &Vec<HashEntry>, out: &mut NameSet, in_func: bool)
    ensures
        final(out)@ == old(out)@.union(entries_captures(*entries, 0, in_func)),
    decreases *entries, 1int, entries@.len(),
{
    let mut i: usize = 0;
    while i < entries.len()
        invariant
            0 <= i <= entries@.len(),
            out@.union(entries_captures(*entries, i as int, in_func)) == old(out)@.union(
                entries_captures(*entries, 0, in_func),
            ),
        decreases entries@.len() - i,
    {
        let ghost before = out@;
        assert(decreases_to!(*entries => entries@[i as int]));
        match &entries[i] {
            HashEntry::KeyValue { key, value } => {
                scan_expr_captures(key, out, in_func);
                scan_expr_captures(value, out, in_func);
            },
            HashEntry::Method { key, body, .. } => {
                scan_expr_captures(key, out, in_func);
                scan_stmts_captures(body, out, true);
            },
            HashEntry::Spread(value) => scan_expr_captures(value, out, in_func),
            HashEntry::Getter { body, .. } => scan_stmts_captures(body, out, true),
            HashEntry::Setter { body, .. } => scan_stmts_captures(body, out, true),
        }
        assert(out@ =~= before.union(entry_captures(entries@[i as int], in_func)));
        assert(out@.union(entries_captures(*entries, i + 1, in_func)) =~= before.union(
            entries_captures(*entries, i as int, in_func),
        ));
        i += 1;
    }
    assert(out@.union(Set::empty()) =~= out@);
}

fn scan_stmt_captures(stmt: &Statement, out: &mut NameSet, in_func: bool)
    ensures
        final(out)@ == old(out)@.union(stmt_captures(*stmt, in_func)),
    decreases *stmt, 0int, 0int,
{
    match stmt {
        Statement::Let { value, .. } => scan_expr_captures(value, out, in_func),
        Statement::LetPattern { pattern, value, .. } => {
            scan_pattern_captures(pattern, out, in_func);
            scan_expr_captures(value, out, in_func);
        },
        Statement::Return { value } => scan_expr_captures(value, out, in_func),
        Statement::ReturnVoid => {},
        Statement::Expression(e) => scan_expr_captures(e, out, in_func),
        Statement::Block(body) => scan_stmts_captures(body, out, in_func),
        Statement::MultiLet(body) => scan_stmts_captures(body, out, in_func),
        Statement::While { condition, body } => {
            scan_expr_captures(condition, out, in_func);
            scan_stmts_captures(body, out, in_func);
        },
        Statement::DoWhile { body, condition } => {
            scan_stmts_captures(body, out, in_func);
            scan_expr_captures(condition, out, in_func);
        },
        Statement::For { init, condition, update, body } => {
            if let Some(first) = init {
                scan_stmt_captures(first, out, in_func);
            }
            scan_optional_expr_captures(condition, out, in_func);
            scan_optional_expr_captures(update, out, in_func);
            scan_stmts_captures(body, out, in_func);
        },
        Statement::ForOf { binding, iterable, body } => {
            scan_binding_captures(binding, out, in_func);
            scan_expr_captures(iterable, out, in_func);
            scan_stmts_captures(body, out, in_func);
        },
        Statement::ForIn { iterable, body, .. } => {
            scan_expr_captures(iterable, out, in_func);
            scan_stmts_captures(body, out, in_func);
        },
        Statement::FunctionDecl { body, .. } => scan_stmts_captures(body, out, true),
        Statement::ClassDecl { extends, members, .. } => {
            scan_parent_captures(extends, out, in_func);
            scan_members_captures(members, out);
        },
        Statement::Throw { value } => scan_expr_captures(value, out, in_func),
        Statement::Try { try_block, catch_block, finally_block, .. } => {
            scan_stmts_captures(try_block, out, in_func);
            scan_optional_stmts_captures(catch_block, out, in_func);
            scan_optional_stmts_captures(finally_block, out, in_func);
        },
        Statement::Switch { discriminant, cases } => {
            scan_expr_captures(discriminant, out, in_func);
            scan_cases_captures(cases, out, in_func);
        },
        Statement::Labeled { statement, .. } => scan_stmt_captures(statement, out, in_func),
        Statement::Break { .. } | Statement::Continue { .. } | Statement::Debugger => {},
    }
    assert(out@ =~= old(out)@.union(stmt_captures(*stmt, in_func)));
}

pub(crate) fn scan_expr_captures(e: &Expression, out: &mut NameSet, in_func: bool)
    ensures
        final(out)@ == old(out)@.union(expr_captures(*e, in_func)),
    decreases *e, 0int, 0int,
{
    match e {
        Expression::Identifier(name) => {
            if in_func {
                out.insert(name.clone());
            }
        },
        Expression::Integer(_)
        | Expression::Float(_)
        | Expression::String(_)
        | Expression::Boolean(_)
        | Expression::Null
        | Expression::This
        | Expression::Super
        | Expression::NewTarget
        | Expression::ImportMeta
        | Expression::RegExp { .. } => {},
        Expression::Array(items) => scan_exprs_captures(items, out, in_func),
        Expression::Hash(entries) => scan_entries_captures(entries, out, in_func),
        Expression::Prefix { right, .. } => scan_expr_captures(right, out, in_func),
        Expression::Typeof { value } => scan_expr_captures(value, out, in_func),
        Expression::Void { value } => scan_expr_captures(value, out, in_func),
        Expression::Delete { value } => scan_expr_captures(value, out, in_func),
        Expression::Await { value } => scan_expr_captures(value, out, in_func),
        Expression::Spread { value } => scan_expr_captures(value, out, in_func),
        Expression::Yield { value, .. } => scan_expr_captures(value, out, in_func),
        Expression::Sequence(items) => scan_exprs_captures(items, out, in_func),
        Expression::Infix { left, right, .. } => {
            scan_expr_captures(left, out, in_func);
            scan_expr_captures(right, out, in_func);
        },
        Expression::Assign { left, right, .. } => {
            scan_expr_captures(left, out, in_func);
            scan_expr_captures(right, out, in_func);
        },
        Expression::Update { target, .. } => scan_expr_captures(target, out, in_func),
        Expression::If { condition, consequence, alternative } => {
            scan_expr_captures(condition, out, in_func);
            scan_stmts_captures(consequence, out, in_func);
            scan_optional_stmts_captures(alternative, out, in_func);
        },
        Expression::Function { body, is_arrow, .. } => {
            if *is_arrow && scan_body_uses_this(body) {
                out.insert("this".to_owned());
            }
            scan_stmts_captures(body, out, true);
        },
        Expression::Call { function, arguments } => {
            scan_expr_captures(function, out, in_func);
            scan_exprs_captures(arguments, out, in_func);
        },
        Expression::OptionalCall { function, arguments } => {
            scan_expr_captures(function, out, in_func);
            scan_exprs_captures(arguments, out, in_func);
        },
        Expression::New { callee, arguments } => {
            scan_expr_captures(callee, out, in_func);
            scan_exprs_captures(arguments, out, in_func);
        },
        Expression::OptionalIndex { left, index } => {
            scan_expr_captures(left, out, in_func);
            scan_expr_captures(index, out, in_func);
        },
        Expression::Index { left, index } => {
            scan_expr_captures(left, out, in_func);
            scan_expr_captures(index, out, in_func);
        },
        Expression::Class { extends, members, .. } => {
            scan_parent_captures(extends, out, in_func);
            scan_members_captures(members, out);
        },
    }
    assert(out@ =~= old(out)@.union(expr_captures(*e, in_func)));
}

/// Whether a function body uses `this`, other than inside a nested function
/// with a `this` of its own.
fn scan_body_uses_this(body: &Vec<Statement>) -> (r: bool)
    ensures
        r == (stmts_captures(*body, 0, true).contains("this"@) || stmts_use_this(*body, 0)),
    decreases *body, 2int, 0int,
{
    let mut names = NameSet::new();
    scan_stmts_captures(body, &mut names, true);
    names.contains("this") || scan_stmts_for_this(body)
}

fn scan_stmts_for_this(stmts: &Vec<Statement>) -> (r: bool)
    ensures
        r == stmts_use_this(*stmts, 0),
    decreases *stmts, 1int, stmts@.len(),
{
    let mut i: usize = 0;
    while i < stmts.len()
        invariant
            0 <= i <= stmts@.len(),
            stmts_use_this(*stmts, i as int) == stmts_use_this(*stmts, 0),
        decreases stmts@.len() - i,
    {
        if scan_stmt_for_this(&stmts[i]) {
            return true;
        }
        i += 1;
    }
    false
}

fn scan_exprs_for_this(items: &Vec<Expression>) -> (r: bool)
    ensures
        r == exprs_use_this(*items, 0),
    decreases *items, 1int, items@.len(),
{
    let mut i: usize = 0;
    while i < items.len()
        invariant
            0 <= i <= items@.len(),
            exprs_use_this(*items, i as int) == exprs_use_this(*items, 0),
        decreases items@.len() - i,
    {
        if scan_expr_for_this(&items[i]) {
            return true;
        }
        i += 1;
    }
    false
}

fn scan_optional_stmts_for_this(stmts: &Option<Vec<Statement>>) -> (r: bool)
    ensures
        r == optional_stmts_use_this(*stmts),
    decreases *stmts, 0int, 0int,
{
    match stmts {
        Some(v) => scan_stmts_for_this(v),
        None => false,
    }
}

fn scan_optional_expr_for_this(e: &Option<Expression>) -> (r: bool)
    ensures
        r == optional_expr_uses_this(*e),
    decreases *e, 0int, 0int,
{
    match e {
        Some(e) => scan_expr_for_this(e),
        None => false,
    }
}

fn scan_parent_for_this(extends: &Option<Box<Expression>>) -> (r: bool)
    ensures
        r == parent_uses_this(*extends),
    decreases *extends, 0int, 0int,
{
    match extends {
        Some(parent) => scan_expr_for_this(parent),
        None => false,
    }
}

fn scan_cases_for_this(items: &Vec<SwitchCase>) -> (r: bool)
    ensures
        r == cases_use_this(*items, 0),
    decreases *items, 1int, items@.len(),
{
    let mut i: usize = 0;
    while i < items.len()
        invariant
            0 <= i <= items@.len(),
            cases_use_this(*items, i as int) == cases_use_this(*items, 0),
        decreases items@.len() - i,
    {
        assert(decreases_to!(*items => items@[i as int]));
        if scan_optional_expr_for_this(&items[i].test) || scan_stmts_for_this(&items[i].consequent) {
            return true;
        }
        i += 1;
    }
    false
}

fn scan_entry_for_this(e: &HashEntry) -> (r: bool)
    ensures
        r == entry_uses_this(*e),
    decreases *e, 0int, 0int,
{
    match e {
        HashEntry::KeyValue { key, value } => scan_expr_for_this(key) || scan_expr_for_this(value),
        HashEntry::Method { key, .. } => scan_expr_for_this(key),
        HashEntry::Spread(value) => scan_expr_for_this(value),
        HashEntry::Getter { key, .. } => scan_expr_for_this(key),
        HashEntry::Setter { key, .. } => scan_expr_for_this(key),
    }
}

fn scan_entries_for_this(items: &Vec<HashEntry>) -> (r: bool)
    ensures
        r == entries_use_this(*items, 0),
    decreases *items, 1int, items@.len(),
{
    let mut i: usize = 0;
    while i < items.len()
        invariant
            0 <= i <= items@.len(),
            entries_use_this(*items, i as int) == entries_use_this(*items, 0),
        decreases items@.len() - i,
    {
        assert(decreases_to!(*items => items@[i as int]));
        if scan_entry_for_this(&items[i]) {
            return true;
        }
        i += 1;
    }
    false
}

fn scan_pattern_for_this(p: &BindingPattern) -> (r: bool)
    ensures
        r == pattern_uses_this(*p),
    decreases *p, 0int, 0int,
{
    match p {
        BindingPattern::Array(items) => scan_array_items_for_this(items),
        BindingPattern::Object(items) => scan_object_items_for_this(items),
    }
}

fn scan_target_for_this(t: &BindingTarget) -> (r: bool)
    ensures
        r == target_uses_this(*t),
    decreases *t, 0int, 0int,
{
    match t {
        BindingTarget::Identifier(_) => false,
        BindingTarget::Pattern(p) => scan_pattern_for_this(p),
    }
}

fn scan_array_item_for_this(item: &ArrayBindingItem) -> (r: bool)
    ensures
        r == array_item_uses_this(*item),
    decreases *item, 0int, 0int,
{
    match item {
        ArrayBindingItem::Binding { target, default_value } => scan_target_for_this(target)
            || scan_optional_expr_for_this(default_value),
        _ => false,
    }
}

fn scan_array_items_for_this(items: &Vec<ArrayBindingItem>) -> (r: bool)
    ensures
        r == array_items_use_this(*items, 0),
    decreases *items, 1int, items@.len(),
{
    let mut i: usize = 0;
    while i < items.len()
        invariant
            0 <= i <= items@.len(),
            array_items_use_this(*items, i as int) == array_items_use_this(*items, 0),
        decreases items@.len() - i,
    {
        assert(decreases_to!(*items => items@[i as int]));
        if scan_array_item_for_this(&items[i]) {
            return true;
        }
        i += 1;
    }
    false
}

fn scan_object_item_for_this(item: &ObjectBindingItem) -> (r: bool)
    ensures
        r == object_item_uses_this(*item),
    decreases *item, 0int, 0int,
{
    scan_expr_for_this(&item.key) || scan_target_for_this(&item.target)
        || scan_optional_expr_for_this(&item.default_value)
}

fn scan_object_items_for_this(items: &Vec<ObjectBindingItem>) -> (r: bool)
    ensures
        r == object_items_use_this(*items, 0),
    decreases *items, 1int, items@.len(),
{
    let mut i: usize = 0;
    while i < items.len()
        invariant
            0 <= i <= items@.len(),
            object_items_use_this(*items, i as int) == object_items_use_this(*items, 0),
        decreases items@.len() - i,
    {
        assert(decreases_to!(*items => items@[i as int]));
        if scan_object_item_for_this(&items[i]) {
            return true;
        }
        i += 1;
    }
    false
}

fn scan_binding_for_this(b: &ForBinding) -> (r: bool)
    ensures
        r == binding_uses_this(*b),
    decreases *b, 0int, 0int,
{
    match b {
        ForBinding::Identifier(_) => false,
        ForBinding::Pattern(p) => scan_pattern_for_this(p),
    }
}

fn scan_stmt_for_this(stmt: &Statement) -> (r: bool)
    ensures
        r == stmt_uses_this(*stmt),
    decreases *stmt, 0int, 0int,
{
    match stmt {
        Statement::Let { value, .. } => scan_expr_for_this(value),
        Statement::LetPattern { pattern, value, .. } => scan_pattern_for_this(pattern)
            || scan_expr_for_this(value),
        Statement::Return { value } => scan_expr_for_this(value),
        Statement::Expression(e) => scan_expr_for_this(e),
        Statement::Block(body) => scan_stmts_for_this(body),
        Statement::MultiLet(body) => scan_stmts_for_this(body),
        Statement::While { condition, body } => scan_expr_for_this(condition) || scan_stmts_for_this(body),
        Statement::DoWhile { body, condition } => scan_stmts_for_this(body) || scan_expr_for_this(condition),
        Statement::For { init, condition, update, body } => (match init {
            Some(first) => scan_stmt_for_this(first),
            None => false,
        }) || scan_optional_expr_for_this(condition) || scan_optional_expr_for_this(update)
            || scan_stmts_for_this(body),
        Statement::ForOf { binding, iterable, body } => scan_binding_for_this(binding)
            || scan_expr_for_this(iterable) || scan_stmts_for_this(body),
        Statement::ForIn { iterable, body, .. } => scan_expr_for_this(iterable) || scan_stmts_for_this(body),
        Statement::ClassDecl { extends, .. } => scan_parent_for_this(extends),
        Statement::Throw { value } => scan_expr_for_this(value),
        Statement::Try { try_block, catch_block, finally_block, .. } => scan_stmts_for_this(try_block) || scan_optional_stmts_for_this(catch_block) || scan_optional_stmts_for_this(finally_block),
        Statement::Switch { discriminant, cases } => scan_expr_for_this(discriminant)
            || scan_cases_for_this(cases),
        Statement::Labeled { statement, .. } => scan_stmt_for_this(statement),
        Statement::FunctionDecl { .. }
        | Statement::ReturnVoid
        | Statement::Break { .. }
        | Statement::Continue { .. }
        | Statement::Debugger => false,
    }
}

fn scan_expr_for_this(e: &Expression) -> (r: bool)
    ensures
        r == expr_uses_this(*e),
    decreases *e, 0int, 0int,
{
    match e {
        Expression::This => true,
        Expression::Identifier(_)
        | Expression::Integer(_)
        | Expression::Float(_)
        | Expression::String(_)
        | Expression::Boolean(_)
        | Expression::Null
        | Expression::Super
        | Expression::NewTarget
        | Expression::ImportMeta
        | Expression::RegExp { .. } => false,
        Expression::Array(items) => scan_exprs_for_this(items),
        Expression::Hash(entries) => scan_entries_for_this(entries),
        Expression::Prefix { right, .. } => scan_expr_for_this(right),
        Expression::Typeof { value } => scan_expr_for_this(value),
        Expression::Void { value } => scan_expr_for_this(value),
        Expression::Delete { value } => scan_expr_for_this(value),
        Expression::Await { value } => scan_expr_for_this(value),
        Expression::Spread { value } => scan_expr_for_this(value),
        Expression::Yield { value, .. } => scan_expr_for_this(value),
        Expression::Sequence(items) => scan_exprs_for_this(items),
        Expression::Infix { left, right, .. } => scan_expr_for_this(left) || scan_expr_for_this(right),
        Expression::Assign { left, right, .. } => scan_expr_for_this(left) || scan_expr_for_this(right),
        Expression::Update { target, .. } => scan_expr_for_this(target),
        Expression::If { condition, consequence, alternative } => scan_expr_for_this(condition)
            || scan_stmts_for_this(consequence) || scan_optional_stmts_for_this(alternative),
        Expression::Function { is_arrow, body, .. } => *is_arrow && scan_stmts_for_this(body),
        Expression::Call { function, arguments } => scan_expr_for_this(function) || scan_exprs_for_this(arguments),
        Expression::OptionalCall { function, arguments } => scan_expr_for_this(function)
            || scan_exprs_for_this(arguments),
        Expression::New { callee, arguments } => scan_expr_for_this(callee) || scan_exprs_for_this(arguments),
        Expression::OptionalIndex { left, index } => scan_expr_for_this(left) || scan_expr_for_this(index),
        Expression::Index { left, index } => scan_expr_for_this(left) || scan_expr_for_this(index),
        Expression::Class { extends, .. } => scan_parent_for_this(extends),
    }
}

/// What is captured outside of any function is captured inside one as well:
/// standing inside a function only adds names.
pub proof fn law_captures_grow_inside_functions(stmt: Statement)
    ensures
        stmt_captures(stmt, false).subset_of(stmt_captures(stmt, true)),
    decreases stmt, 0int, 0int,
{
    match stmt {
        Statement::Let { value, .. } => lemma_expr_captures_grow(value),
        Statement::LetPattern { pattern, value, .. } => {
            lemma_pattern_captures_grow(pattern);
            lemma_expr_captures_grow(value);
        },
        Statement::Return { value } => lemma_expr_captures_grow(value),
        Statement::Expression(e) => lemma_expr_captures_grow(e),
        Statement::Block(body) => lemma_stmts_captures_grow(body, 0),
        Statement::MultiLet(body) => lemma_stmts_captures_grow(body, 0),
        Statement::While { condition, body } => {
            lemma_expr_captures_grow(condition);
            lemma_stmts_captures_grow(body, 0);
        },
        Statement::DoWhile { body, condition } => {
            lemma_expr_captures_grow(condition);
            lemma_stmts_captures_grow(body, 0);
        },
        Statement::For { init, condition, update, body } => {
            if let Some(first) = init {
                law_captures_grow_inside_functions(*first);
            }
            lemma_optional_expr_captures_grow(condition);
            lemma_optional_expr_captures_grow(update);
            lemma_stmts_captures_grow(body, 0);
        },
        Statement::ForOf { binding, iterable, body } => {
            if let ForBinding::Pattern(p) = binding {
                lemma_pattern_captures_grow(p);
            }
            assert(binding_captures(binding, false).subset_of(binding_captures(binding, true)));
            lemma_expr_captures_grow(iterable);
            lemma_stmts_captures_grow(body, 0);
        },
        Statement::ForIn { iterable, body, .. } => {
            lemma_expr_captures_grow(iterable);
            lemma_stmts_captures_grow(body, 0);
        },
        Statement::ClassDecl { extends, .. } => lemma_parent_captures_grow(extends),
        Statement::Throw { value } => lemma_expr_captures_grow(value),
        Statement::Try { try_block, catch_block, finally_block, .. } => {
            lemma_stmts_captures_grow(try_block, 0);
            lemma_optional_stmts_captures_grow(catch_block);
            lemma_optional_stmts_captures_grow(finally_block);
        },
        Statement::Switch { discriminant, cases } => {
            lemma_expr_captures_grow(discriminant);
            lemma_cases_captures_grow(cases, 0);
        },
        Statement::Labeled { statement, .. } => law_captures_grow_inside_functions(*statement),
        _ => {},
    }
}

proof fn lemma_stmts_captures_grow(v: Vec<Statement>, i: int)
    ensures
        stmts_captures(v, i, false).subset_of(stmts_captures(v, i, true)),
    decreases v, 1int, v@.len() - i,
{
    if 0 <= i < v@.len() {
        law_captures_grow_inside_functions(v@[i]);
        lemma_stmts_captures_grow(v, i + 1);
    }
}

proof fn lemma_exprs_captures_grow(v: Vec<Expression>, i: int)
    ensures
        exprs_captures(v, i, false).subset_of(exprs_captures(v, i, true)),
    decreases v, 1int, v@.len() - i,
{
    if 0 <= i < v@.len() {
        lemma_expr_captures_grow(v@[i]);
        lemma_exprs_captures_grow(v, i + 1);
    }
}

proof fn lemma_optional_expr_captures_grow(e: Option<Expression>)
    ensures
        optional_expr_captures(e, false).subset_of(optional_expr_captures(e, true)),
    decreases e, 0int, 0int,
{
    if let Some(e) = e {
        lemma_expr_captures_grow(e);
    }
}

proof fn lemma_optional_stmts_captures_grow(v: Option<Vec<Statement>>)
    ensures
        optional_stmts_captures(v, false).subset_of(optional_stmts_captures(v, true)),
    decreases v, 0int, 0int,
{
    if let Some(v) = v {
        lemma_stmts_captures_grow(v, 0);
    }
}

proof fn lemma_cases_captures_grow(v: Vec<SwitchCase>, i: int)
    ensures
        cases_captures(v, i, false).subset_of(cases_captures(v, i, true)),
    decreases v, 1int, v@.len() - i,
{
    if 0 <= i < v@.len() {
        lemma_optional_expr_captures_grow(v@[i].test);
        lemma_stmts_captures_grow(v@[i].consequent, 0);
        lemma_cases_captures_grow(v, i + 1);
    }
}

proof fn lemma_parent_captures_grow(extends: Option<Box<Expression>>)
    ensures
        parent_captures(extends, false).subset_of(parent_captures(extends, true)),
    decreases extends, 0int, 0int,
{
    if let Some(parent) = extends {
        lemma_expr_captures_grow(*parent);
    }
}

proof fn lemma_pattern_captures_grow(p: BindingPattern)
    ensures
        pattern_captures(p, false).subset_of(pattern_captures(p, true)),
    decreases p, 0int, 0int,
{
    match p {
        BindingPattern::Array(items) => lemma_array_items_captures_grow(items, 0),
        BindingPattern::Object(items) => lemma_object_items_captures_grow(items, 0),
    }
}

proof fn lemma_target_captures_grow(t: BindingTarget)
    ensures
        target_captures(t, false).subset_of(target_captures(t, true)),
    decreases t, 0int, 0int,
{
    if let BindingTarget::Pattern(p) = t {
        lemma_pattern_captures_grow(*p);
    }
}

proof fn lemma_array_items_captures_grow(v: Vec<ArrayBindingItem>, i: int)
    ensures
        array_items_captures(v, i, false).subset_of(array_items_captures(v, i, true)),
    decreases v, 1int, v@.len() - i,
{
    if 0 <= i < v@.len() {
        if let ArrayBindingItem::Binding { target, default_value } = v@[i] {
            lemma_target_captures_grow(target);
            lemma_optional_expr_captures_grow(default_value);
        }
        assert(array_item_captures(v@[i], false).subset_of(array_item_captures(v@[i], true)));
        lemma_array_items_captures_grow(v, i + 1);
    }
}

proof fn lemma_object_items_captures_grow(v: Vec<ObjectBindingItem>, i: int)
    ensures
        object_items_captures(v, i, false).subset_of(object_items_captures(v, i, true)),
    decreases v, 1int, v@.len() - i,
{
    if 0 <= i < v@.len() {
        lemma_expr_captures_grow(v@[i].key);
        lemma_target_captures_grow(v@[i].target);
        lemma_optional_expr_captures_grow(v@[i].default_value);
        assert(object_item_captures(v@[i], false).subset_of(object_item_captures(v@[i], true)));
        lemma_object_items_captures_grow(v, i + 1);
    }
}

proof fn lemma_entries_captures_grow(v: Vec<HashEntry>, i: int)
    ensures
        entries_captures(v, i, false).subset_of(entries_captures(v, i, true)),
    decreases v, 1int, v@.len() - i,
{
    if 0 <= i < v@.len() {
        match v@[i] {
            HashEntry::KeyValue { key, value } => {
                lemma_expr_captures_grow(key);
                lemma_expr_captures_grow(value);
            },
            HashEntry::Method { key, .. } => lemma_expr_captures_grow(key),
            HashEntry::Spread(value) => lemma_expr_captures_grow(value),
            _ => {},
        }
        assert(entry_captures(v@[i], false).subset_of(entry_captures(v@[i], true)));
        lemma_entries_captures_grow(v, i + 1);
    }
}

proof fn lemma_expr_captures_grow(e: Expression)
    ensures
        expr_captures(e, false).subset_of(expr_captures(e, true)),
    decreases e, 0int, 0int,
{
    match e {
        Expression::Array(items) => lemma_exprs_captures_grow(items, 0),
        Expression::Hash(entries) => lemma_entries_captures_grow(entries, 0),
        Expression::Prefix { right, .. } => lemma_expr_captures_grow(*right),
        Expression::Typeof { value } => lemma_expr_captures_grow(*value),
        Expression::Void { value } => lemma_expr_captures_grow(*value),
        Expression::Delete { value } => lemma_expr_captures_grow(*value),
        Expression::Await { value } => lemma_expr_captures_grow(*value),
        Expression::Spread { value } => lemma_expr_captures_grow(*value),
        Expression::Yield { value, .. } => lemma_expr_captures_grow(*value),
        Expression::Sequence(items) => lemma_exprs_captures_grow(items, 0),
        Expression::Infix { left, right, .. } => {
            lemma_expr_captures_grow(*left);
            lemma_expr_captures_grow(*right);
        },
        Expression::Assign { left, right, .. } => {
            lemma_expr_captures_grow(*left);
            lemma_expr_captures_grow(*right);
        },
        Expression::Update { target, .. } => lemma_expr_captures_grow(*target),
        Expression::If { condition, consequence, alternative } => {
            lemma_expr_captures_grow(*condition);
            lemma_stmts_captures_grow(consequence, 0);
            lemma_optional_stmts_captures_grow(alternative);
        },
        Expression::Call { function, arguments } => {
            lemma_expr_captures_grow(*function);
            lemma_exprs_captures_grow(arguments, 0);
        },
        Expression::OptionalCall { function, arguments } => {
            lemma_expr_captures_grow(*function);
            lemma_exprs_captures_grow(arguments, 0);
        },
        Expression::New { callee, arguments } => {
            lemma_expr_captures_grow(*callee);
            lemma_exprs_captures_grow(arguments, 0);
        },
        Expression::OptionalIndex { left, index } => {
            lemma_expr_captures_grow(*left);
            lemma_expr_captures_grow(*index);
        },
        Expression::Index { left, index } => {
            lemma_expr_captures_grow(*left);
            lemma_expr_captures_grow(*index);
        },
        Expression::Class { extends, .. } => lemma_parent_captures_grow(extends),
        _ => {},
    }
}

} // verus!
