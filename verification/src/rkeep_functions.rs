//! What functions and classes of the register compiler keep.
use vstd::prelude::*;

use crate::ast::{ClassMember, Expression, Statement};
use crate::captures::stmts_captures;
use crate::object::{ClassView, StaticInitializerView};
use crate::parts::{
    class_all, lemma_derived, lemma_with_block, lemma_with_field, lemma_with_method, level_all,
};
use crate::rcodegen::RView;
use crate::rkeep_expressions::keeps_expr;
use crate::rkeep_statements::keeps_walk;
use crate::rkeep::lemma_grows_all;
use crate::rrules::{
    body_rrule, class_rrule, field_captures, field_rrule, function_rrule, members_rrule,
    rderived_class, rgen_body, rgen_class, rgen_field, rgen_function, rgen_members, rgen_walk,
    Pick, Walk,
};
use crate::rsound::{
    grows, growth_is_sound, is_laid_out, is_laid_out_to, is_sound, laid_out,
    lemma_blank_is_laid_out, lemma_grows_self, lemma_sound_classes, step_after_function,
    step_declare_all, step_define_class, step_emit, step_fail, step_finish_function,
    step_free_temps, step_function, step_function_scope, step_load_name_new,
    step_mirror_parameters,
};
use crate::rules::{
    effective_parameters, parameters, parent_class, parent_name, var_names, with_field,
    with_method,
};

verus! {

/// A list of parameters that is accepted has a name for each, and a rest parameter
/// only at its end.
pub(crate) proof fn lemma_parameters(list: Seq<String>, n: int)
    requires
        0 <= n <= list.len(),
        list.len() <= usize::MAX,
    ensures
        parameters(list, n).err is None ==> parameters(list, n).names.len() == n && (
        parameters(list, n).rest matches Some(i) ==> n == list.len() && i + 1 == n),
    decreases n,
{
    if n > 0 {
        lemma_parameters(list, n - 1);
    }
}

/// A class that inherits from one that is in order is in order.
proof fn lemma_bare_class(s: RView, name: Seq<char>, extends: Option<Seq<char>>)
    requires
        is_sound(s),
    ensures
        class_all(rderived_class(name, parent_class(extends, s.class_defs)), laid_out()),
{
    lemma_sound_classes(s);
    reveal(rderived_class);
    let parent = parent_class(extends, s.class_defs);
    lemma_derived(name, parent, laid_out());
    let class = rderived_class(name, parent);
    if let Some((_, found)) = parent {
        assert forall|i: int| 0 <= i < class.super_constructor_chain.len() implies level_all(
            #[trigger] class.super_constructor_chain[i],
            laid_out(),
        ) by {
            if i > 0 {
                assert(level_all(found.super_constructor_chain[i - 1], laid_out()));
            }
        }
    }
}

pub(crate) proof fn keeps_function(
    s: RView,
    list: Vec<String>,
    body: Vec<Statement>,
    takes_this: bool,
    is_async: bool,
    is_generator: bool,
)
    requires
        is_sound(s),
    ensures
        ({
            let r = rgen_function(s, list, body, takes_this, is_async, is_generator);
            &&& grows(s, r.0)
            &&& forall|a: RView| #[trigger] grows(a, s) ==> grows(a, r.0)
            &&& s.max_reg <= r.0.max_reg
            &&& is_laid_out(r.1)
        }),
    decreases body, 4int, 0int, 1int,
{
    broadcast use {growth_is_sound, step_fail};

    lemma_grows_self(s);
    let first = s;
    let r = rgen_function(s, list, body, takes_this, is_async, is_generator);
    reveal(function_rrule);
    assert(r == function_rrule(s, list, body, takes_this, is_async, is_generator));
    lemma_blank_is_laid_out();
    assert(list.len() == list@.len());
    lemma_parameters(list@, list@.len() as int);
    let p = parameters(list@, list@.len() as int);
    if s.err is Some {
    } else if p.err is Some {
    } else {
        keeps_body(s, p.names, p.rest, body, takes_this, is_async, is_generator);
    }
    assert(grows(first, r.0));
    lemma_grows_all(first, r.0);
}

pub(crate) proof fn keeps_body(
    s: RView,
    names: Seq<Seq<char>>,
    rest: Option<usize>,
    body: Vec<Statement>,
    takes_this: bool,
    is_async: bool,
    is_generator: bool,
)
    requires
        is_sound(s),
        rest matches Some(i) ==> names.len() <= i + 1,
        names.len() <= usize::MAX,
    ensures
        ({
            let r = rgen_body(s, names, rest, body, takes_this, is_async, is_generator);
            &&& grows(s, r.0)
            &&& forall|a: RView| #[trigger] grows(a, s) ==> grows(a, r.0)
            &&& s.max_reg <= r.0.max_reg
            &&& is_laid_out(r.1)
        }),
    decreases body, 3int, 0int, 1int,
{
    broadcast use {
        growth_is_sound,
        step_declare_all,
        step_mirror_parameters,
        step_finish_function,
        step_after_function,
        step_function_scope,
        step_function,
    };

    lemma_grows_self(s);
    let first = s;
    let r = rgen_body(s, names, rest, body, takes_this, is_async, is_generator);
    reveal(body_rrule);
    assert(r == body_rrule(s, names, rest, body, takes_this, is_async, is_generator));
    let all = effective_parameters(names, takes_this);
    if all.len() <= 0xffff {
        let inner = s.function_scope(all, stmts_captures(body, 0, false)).mirror_parameters(all, 0);
        let inner = inner.declare_all(var_names(body, 0), 0);
        let functions = Walk { pick: Pick::Functions, free: true, keep: false };
        let others = Walk { pick: Pick::Others, free: true, keep: false };
        keeps_walk(inner, body, 0, body@.len() as int, functions, None);
        let inner = rgen_walk(inner, body, 0, body@.len() as int, functions, None).0;
        keeps_walk(inner, body, 0, body@.len() as int, others, None);
    } else {
        reveal(RView::function);
        assert(r.1.num_parameters >= 0xfffe);
        assert forall|depth: nat| #[trigger] is_laid_out_to(r.1, depth) by {}
    }
    assert(grows(first, r.0));
    lemma_grows_all(first, r.0);
}

pub(crate) proof fn keeps_field(s: RView, initializer: Option<Expression>)
    requires
        is_sound(s),
    ensures
        ({
            let r = rgen_field(s, initializer);
            &&& grows(s, r.0)
            &&& forall|a: RView| #[trigger] grows(a, s) ==> grows(a, r.0)
            &&& s.max_reg <= r.0.max_reg
            &&& is_laid_out(r.1)
        }),
    decreases initializer, 3int, 0int, 1int,
{
    broadcast use {
        growth_is_sound,
        step_emit,
        step_free_temps,
        step_load_name_new,
        step_mirror_parameters,
        step_finish_function,
        step_after_function,
        step_function_scope,
        step_function,
    };

    lemma_grows_self(s);
    let first = s;
    let r = rgen_field(s, initializer);
    reveal(field_rrule);
    assert(r == field_rrule(s, initializer));
    let all = seq!["this"@];
    let inner = s.function_scope(all, field_captures(initializer)).mirror_parameters(all, 0);
    match initializer {
        Some(value) => keeps_expr(inner, value),
        _ => {},
    }
    assert(grows(first, r.0));
    lemma_grows_all(first, r.0);
}

pub(crate) proof fn keeps_members(s: RView, class: ClassView, members: Vec<ClassMember>, i: int)
    requires
        is_sound(s),
        class_all(class, laid_out()),
    ensures
        ({
            let r = rgen_members(s, class, members, i);
            &&& grows(s, r.0)
            &&& forall|a: RView| #[trigger] grows(a, s) ==> grows(a, r.0)
            &&& s.max_reg <= r.0.max_reg
            &&& class_all(r.1, laid_out())
        }),
    decreases members, 1int, members@.len() - i, 1int,
{
    broadcast use growth_is_sound;

    lemma_grows_self(s);
    let first = s;
    let r = rgen_members(s, class, members, i);
    reveal(members_rrule);
    assert(r == members_rrule(s, class, members, i));
    if 0 <= i < members@.len() {
        match members@[i] {
            ClassMember::Method(m) => {
                keeps_function(s, m.parameters, m.body, true, false, false);
                let (s, f) = rgen_function(s, m.parameters, m.body, true, false, false);
                lemma_with_method(
                    class,
                    m.name@,
                    m.is_static,
                    m.is_getter,
                    m.is_setter,
                    f,
                    laid_out(),
                );
                let class = with_method(class, m.name@, m.is_static, m.is_getter, m.is_setter, f);
                keeps_members(s, class, members, i + 1);
            },
            ClassMember::Field { name, initializer, is_static } => {
                keeps_field(s, initializer);
                let (s, f) = rgen_field(s, initializer);
                lemma_with_field(class, name@, is_static, f, laid_out());
                keeps_members(s, with_field(class, name@, is_static, f), members, i + 1);
            },
            ClassMember::StaticBlock { body } => {
                keeps_body(s, Seq::empty(), None, body, true, false, false);
                let (s, f) = rgen_body(s, Seq::empty(), None, body, true, false, false);
                lemma_with_block(class, f, laid_out());
                let class = ClassView {
                    static_initializers: class.static_initializers.push(
                        StaticInitializerView::Block(f),
                    ),
                    ..class
                };
                keeps_members(s, class, members, i + 1);
            },
        }
    }
    assert(grows(first, r.0));
    lemma_grows_all(first, r.0);
}

pub(crate) proof fn keeps_class(
    s: RView,
    name: Option<String>,
    extends: Option<Box<Expression>>,
    members: Vec<ClassMember>,
)
    requires
        is_sound(s),
    ensures
        ({
            let r = rgen_class(s, name, extends, members);
            &&& grows(s, r.0)
            &&& forall|a: RView| #[trigger] grows(a, s) ==> grows(a, r.0)
            &&& s.max_reg <= r.0.max_reg
            &&& class_all(r.1, laid_out())
        }),
    decreases members, 4int, 0int, 1int,
{
    broadcast use {growth_is_sound, step_define_class};

    lemma_grows_self(s);
    let first = s;
    let r = rgen_class(s, name, extends, members);
    reveal(class_rrule);
    assert(r == class_rrule(s, name, extends, members));
    let own_name = match name {
        Some(n) => n@,
        None => ""@,
    };
    let bare = rderived_class(own_name, parent_class(parent_name(extends), s.class_defs));
    lemma_bare_class(s, own_name, parent_name(extends));
    keeps_members(s, bare, members, 0);
    assert(grows(first, r.0));
    lemma_grows_all(first, r.0);
}

} // verus!
