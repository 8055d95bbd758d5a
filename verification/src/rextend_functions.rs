//! What functions and classes of the register compiler leave as it is.
use vstd::prelude::*;

use crate::ast::{ClassMember, Expression, Statement};
use crate::object::{ClassView, StaticInitializerView};
use crate::rcodegen::RView;
use crate::rextend::{
    builds_on, ext_after_function, ext_define_class, ext_fail, extension_is_extendable,
    is_extendable, lemma_extends_all, lemma_extends_self,
};
use crate::rrules::{
    body_rrule, class_rrule, field_rrule, function_rrule, members_rrule, rderived_class, rgen_body,
    rgen_class, rgen_field, rgen_function, rgen_members,
};
use crate::rules::{parameters, parent_class, parent_name, with_field, with_method};

verus! {

pub(crate) proof fn extends_function(
    s: RView,
    list: Vec<String>,
    body: Vec<Statement>,
    takes_this: bool,
    is_async: bool,
    is_generator: bool,
)
    requires
        is_extendable(s),
    ensures
        ({
            let r = rgen_function(s, list, body, takes_this, is_async, is_generator);
            &&& builds_on(s, r.0)
            &&& forall|a: RView| #[trigger] builds_on(a, s) ==> builds_on(a, r.0)
            &&& s.instructions.len() <= r.0.instructions.len()
            &&& r.0.loop_stack.len() == s.loop_stack.len()
            &&& r.0.try_stack.len() == s.try_stack.len()
        }),
{
    broadcast use {ext_fail, extension_is_extendable};

    lemma_extends_self(s);
    let first = s;
    let r = rgen_function(s, list, body, takes_this, is_async, is_generator);
    reveal(function_rrule);
    assert(r == function_rrule(s, list, body, takes_this, is_async, is_generator));
    let p = parameters(list@, list@.len() as int);
    if s.err is Some {
    } else if p.err is Some {
    } else {
        extends_body(s, p.names, p.rest, body, takes_this, is_async, is_generator);
    }
    assert(builds_on(first, r.0));
    lemma_extends_all(first, r.0);
}

pub(crate) proof fn extends_body(
    s: RView,
    names: Seq<Seq<char>>,
    rest: Option<usize>,
    body: Vec<Statement>,
    takes_this: bool,
    is_async: bool,
    is_generator: bool,
)
    requires
        is_extendable(s),
    ensures
        ({
            let r = rgen_body(s, names, rest, body, takes_this, is_async, is_generator);
            &&& builds_on(s, r.0)
            &&& forall|a: RView| #[trigger] builds_on(a, s) ==> builds_on(a, r.0)
            &&& s.instructions.len() <= r.0.instructions.len()
            &&& r.0.loop_stack.len() == s.loop_stack.len()
            &&& r.0.try_stack.len() == s.try_stack.len()
        }),
{
    broadcast use ext_after_function;

    lemma_extends_self(s);
    let first = s;
    let r = rgen_body(s, names, rest, body, takes_this, is_async, is_generator);
    reveal(body_rrule);
    assert(r == body_rrule(s, names, rest, body, takes_this, is_async, is_generator));
    assert(builds_on(first, r.0));
    lemma_extends_all(first, r.0);
}

pub(crate) proof fn extends_field(s: RView, initializer: Option<Expression>)
    requires
        is_extendable(s),
    ensures
        ({
            let r = rgen_field(s, initializer);
            &&& builds_on(s, r.0)
            &&& forall|a: RView| #[trigger] builds_on(a, s) ==> builds_on(a, r.0)
            &&& s.instructions.len() <= r.0.instructions.len()
            &&& r.0.loop_stack.len() == s.loop_stack.len()
            &&& r.0.try_stack.len() == s.try_stack.len()
        }),
{
    broadcast use ext_after_function;

    lemma_extends_self(s);
    let first = s;
    let r = rgen_field(s, initializer);
    reveal(field_rrule);
    assert(r == field_rrule(s, initializer));
    assert(builds_on(first, r.0));
    lemma_extends_all(first, r.0);
}

pub(crate) proof fn extends_members(s: RView, class: ClassView, members: Vec<ClassMember>, i: int)
    requires
        is_extendable(s),
    ensures
        ({
            let r = rgen_members(s, class, members, i);
            &&& builds_on(s, r.0)
            &&& forall|a: RView| #[trigger] builds_on(a, s) ==> builds_on(a, r.0)
            &&& s.instructions.len() <= r.0.instructions.len()
            &&& r.0.loop_stack.len() == s.loop_stack.len()
            &&& r.0.try_stack.len() == s.try_stack.len()
        }),
    decreases members, 1int, members@.len() - i, 1int,
{
    broadcast use extension_is_extendable;

    lemma_extends_self(s);
    let first = s;
    let r = rgen_members(s, class, members, i);
    reveal(members_rrule);
    assert(r == members_rrule(s, class, members, i));
    if 0 <= i < members@.len() {
        match members@[i] {
            ClassMember::Method(m) => {
                extends_function(s, m.parameters, m.body, true, false, false);
                let (s, f) = rgen_function(s, m.parameters, m.body, true, false, false);
                let class = with_method(class, m.name@, m.is_static, m.is_getter, m.is_setter, f);
                extends_members(s, class, members, i + 1);
            },
            ClassMember::Field { name, initializer, is_static } => {
                extends_field(s, initializer);
                let (s, f) = rgen_field(s, initializer);
                extends_members(s, with_field(class, name@, is_static, f), members, i + 1);
            },
            ClassMember::StaticBlock { body } => {
                extends_body(s, Seq::empty(), None, body, true, false, false);
                let (s, f) = rgen_body(s, Seq::empty(), None, body, true, false, false);
                let class = ClassView {
                    static_initializers: class.static_initializers.push(
                        StaticInitializerView::Block(f),
                    ),
                    ..class
                };
                extends_members(s, class, members, i + 1);
            },
        }
    }
    assert(builds_on(first, r.0));
    lemma_extends_all(first, r.0);
}

pub(crate) proof fn extends_class(
    s: RView,
    name: Option<String>,
    extends: Option<Box<Expression>>,
    members: Vec<ClassMember>,
)
    requires
        is_extendable(s),
    ensures
        ({
            let r = rgen_class(s, name, extends, members);
            &&& builds_on(s, r.0)
            &&& forall|a: RView| #[trigger] builds_on(a, s) ==> builds_on(a, r.0)
            &&& s.instructions.len() <= r.0.instructions.len()
            &&& r.0.loop_stack.len() == s.loop_stack.len()
            &&& r.0.try_stack.len() == s.try_stack.len()
        }),
    decreases members, 4int, 0int, 1int,
{
    broadcast use {ext_define_class, extension_is_extendable};

    lemma_extends_self(s);
    let first = s;
    let r = rgen_class(s, name, extends, members);
    reveal(class_rrule);
    assert(r == class_rrule(s, name, extends, members));
    let own_name = match name {
        Some(n) => n@,
        None => ""@,
    };
    let bare = rderived_class(own_name, parent_class(parent_name(extends), s.class_defs));
    extends_members(s, bare, members, 0);
    assert(builds_on(first, r.0));
    lemma_extends_all(first, r.0);
}

} // verus!
