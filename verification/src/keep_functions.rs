//! What functions and classes of the stack compiler keep.
use vstd::prelude::*;

use crate::ast::{ClassMember, Expression, Statement};
use crate::codegen::CompilerView;
use crate::keep_expressions::keeps_expr;
use crate::keep_statements::keeps_stmts;
use crate::object::{ClassView, StaticInitializerView};
use crate::parts::{class_all, lemma_derived, lemma_with_block, lemma_with_field, lemma_with_method};
use crate::rules::{
    bare_class, body_rule, class_value_rule, declare_all, effective_parameters, field_rule,
    function_rule, gen_body, gen_class_value, gen_field, gen_function, gen_members, members_rule,
    parameters, parent_class, parent_name, var_names, with_field, with_method,
};
use crate::sound::{
    composed, grows, growth_is_sound, is_composed, is_sound, lemma_blank_is_composed,
    lemma_err_stays, lemma_grows_all, lemma_grows_self, lemma_grows_sound, lemma_sound_classes,
    step_after_function, step_declare_all, step_define_class, step_emit0, step_fail,
    step_finish_function, step_function, step_function_scope, step_push_name, step_push_object,
};

verus! {

/// A class that inherits from one that is in order is in order.
proof fn lemma_bare_class(s: CompilerView, name: Seq<char>, extends: Option<Seq<char>>)
    requires
        is_sound(s),
    ensures
        s.err is None ==> class_all(bare_class(name, extends, s.class_defs), composed()),
{
    lemma_sound_classes(s);
    if s.err is None {
        lemma_derived(name, parent_class(extends, s.class_defs), composed());
    }
}

pub(crate) proof fn keeps_function(
    s: CompilerView,
    list: Vec<String>,
    body: Vec<Statement>,
    takes_this: bool,
    is_async: bool,
    is_generator: bool,
)
    requires
        is_sound(s),
    ensures
        ({
            let r = gen_function(s, list, body, takes_this, is_async, is_generator);
            &&& grows(s, r.0)
            &&& forall|a: CompilerView| #[trigger] grows(a, s) ==> grows(a, r.0)
            &&& r.0.err is None ==> is_composed(r.1)
        }),
    decreases body, 4int, 0int, 1int,
{
    broadcast use {growth_is_sound, step_fail};

    lemma_grows_self(s);
    let first = s;
    let r = gen_function(s, list, body, takes_this, is_async, is_generator);
    reveal(function_rule);
    assert(r == function_rule(s, list, body, takes_this, is_async, is_generator));
    lemma_blank_is_composed();
    let p = parameters(list@, list@.len() as int);
    if s.err is Some {
    } else if p.err is Some {
    } else {
        keeps_body(s, p.names, p.rest, body, takes_this, is_async, is_generator);
    }
    assert(grows(first, r.0));
    lemma_grows_all(first, r.0);
}

pub(crate) proof fn keeps_body(
    s: CompilerView,
    names: Seq<Seq<char>>,
    rest: Option<usize>,
    body: Vec<Statement>,
    takes_this: bool,
    is_async: bool,
    is_generator: bool,
)
    requires
        is_sound(s),
    ensures
        ({
            let r = gen_body(s, names, rest, body, takes_this, is_async, is_generator);
            &&& grows(s, r.0)
            &&& forall|a: CompilerView| #[trigger] grows(a, s) ==> grows(a, r.0)
            &&& r.0.err is None ==> is_composed(r.1)
        }),
    decreases body, 3int, 0int, 1int,
{
    broadcast use {
        growth_is_sound,
        step_finish_function,
        step_after_function,
        step_function_scope,
        step_function,
        step_declare_all,
    };

    lemma_grows_self(s);
    let first = s;
    let r = gen_body(s, names, rest, body, takes_this, is_async, is_generator);
    reveal(body_rule);
    assert(r == body_rule(s, names, rest, body, takes_this, is_async, is_generator));
    let inner = s.function_scope(effective_parameters(names, takes_this));
    keeps_stmts(declare_all(inner, var_names(body, 0), 0), body, 0);
    assert(grows(first, r.0));
    lemma_grows_all(first, r.0);
}

pub(crate) proof fn keeps_field(s: CompilerView, initializer: Option<Expression>)
    requires
        is_sound(s),
    ensures
        ({
            let r = gen_field(s, initializer);
            &&& grows(s, r.0)
            &&& forall|a: CompilerView| #[trigger] grows(a, s) ==> grows(a, r.0)
            &&& r.0.err is None ==> is_composed(r.1)
        }),
    decreases initializer, 3int, 0int, 1int,
{
    broadcast use {
        growth_is_sound,
        step_emit0,
        step_push_name,
        step_finish_function,
        step_after_function,
        step_function_scope,
        step_function,
    };

    lemma_grows_self(s);
    let first = s;
    let r = gen_field(s, initializer);
    reveal(field_rule);
    assert(r == field_rule(s, initializer));
    let inner = s.function_scope(seq!["this"@]);
    match initializer {
        Some(value) => keeps_expr(inner, value),
        _ => {},
    }
    assert(grows(first, r.0));
    lemma_grows_all(first, r.0);
}

pub(crate) proof fn keeps_members(
    s: CompilerView,
    class: ClassView,
    members: Vec<ClassMember>,
    i: int,
)
    requires
        is_sound(s),
        s.err is None ==> class_all(class, composed()),
    ensures
        ({
            let r = gen_members(s, class, members, i);
            &&& grows(s, r.0)
            &&& forall|a: CompilerView| #[trigger] grows(a, s) ==> grows(a, r.0)
            &&& r.0.err is None ==> class_all(r.1, composed())
            &&& grows(r.0, r.0)
        }),
    decreases members, 1int, members@.len() - i, 1int,
{
    broadcast use growth_is_sound;

    lemma_grows_self(s);
    let first = s;
    let r = gen_members(s, class, members, i);
    reveal(members_rule);
    assert(r == members_rule(s, class, members, i));
    if 0 <= i < members@.len() {
        match members@[i] {
            ClassMember::Method(m) => {
                keeps_function(s, m.parameters, m.body, true, false, false);
                let before = s;
                let (s, f) = gen_function(s, m.parameters, m.body, true, false, false);
                lemma_err_stays(before, s);
                if s.err is None {
                    lemma_with_method(
                        class,
                        m.name@,
                        m.is_static,
                        m.is_getter,
                        m.is_setter,
                        f,
                        composed(),
                    );
                }
                let class = with_method(class, m.name@, m.is_static, m.is_getter, m.is_setter, f);
                keeps_members(s, class, members, i + 1);
            },
            ClassMember::Field { name, initializer, is_static } => {
                keeps_field(s, initializer);
                let before = s;
                let (s, f) = gen_field(s, initializer);
                lemma_err_stays(before, s);
                if s.err is None {
                    lemma_with_field(class, name@, is_static, f, composed());
                }
                keeps_members(s, with_field(class, name@, is_static, f), members, i + 1);
            },
            ClassMember::StaticBlock { body } => {
                keeps_body(s, Seq::empty(), None, body, true, false, false);
                let before = s;
                let (s, f) = gen_body(s, Seq::empty(), None, body, true, false, false);
                lemma_err_stays(before, s);
                if s.err is None {
                    lemma_with_block(class, f, composed());
                }
                let class = ClassView {
                    static_initializers: class.static_initializers.push(
                        StaticInitializerView::Block(f),
                    ),
                    ..class
                };
                keeps_members(s, class, members, i + 1);
            },
        }
    }
    assert(grows(first, r.0));
    lemma_grows_all(first, r.0);
    lemma_grows_sound(first, r.0);
}

pub(crate) proof fn keeps_class_value(
    s: CompilerView,
    name: Option<String>,
    extends: Option<Box<Expression>>,
    members: Vec<ClassMember>,
)
    requires
        is_sound(s),
    ensures
        ({
            let r = gen_class_value(s, name, extends, members);
            &&& grows(s, r)
            &&& forall|a: CompilerView| #[trigger] grows(a, s) ==> grows(a, r)
        }),
    decreases members, 4int, 0int, 1int,
{
    broadcast use {growth_is_sound, step_emit0, step_define_class, step_push_object};

    lemma_grows_self(s);
    let first = s;
    let r = gen_class_value(s, name, extends, members);
    reveal(class_value_rule);
    assert(r == class_value_rule(s, name, extends, members));
    reveal(CompilerView::define_class);
    let own_name = match name {
        Some(n) => n@,
        None => ""@,
    };
    let bare = bare_class(own_name, parent_name(extends), s.class_defs);
    lemma_bare_class(s, own_name, parent_name(extends));
    keeps_members(s, bare, members, 0);
    assert(grows(first, r));
    lemma_grows_all(first, r);
}

} // verus!
