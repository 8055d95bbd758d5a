//! The functions that an object is made of.
use vstd::prelude::*;

use crate::names::Names;
use crate::object::{ClassView, FunctionView, ObjectView, StaticInitializerView, SuperLevelView};
use crate::rules::{derived_class, with_field, with_method};

verus! {

/// Whether the functions of a table meet `p`.
pub open spec fn table_all(t: Names<FunctionView>, p: spec_fn(FunctionView) -> bool) -> bool {
    forall|name: Seq<char>| #[trigger] t.has(name) ==> p(t.map[name])
}

/// Whether the functions that a class inherits from one level meet `p`.
pub open spec fn level_all(l: SuperLevelView, p: spec_fn(FunctionView) -> bool) -> bool {
    table_all(l.methods, p) && table_all(l.getters, p) && table_all(l.setters, p)
}

/// Whether the function of a static initializer meets `p`.
pub open spec fn initializer_all(
    i: StaticInitializerView,
    p: spec_fn(FunctionView) -> bool,
) -> bool {
    match i {
        StaticInitializerView::Field(_, f) => p(f),
        StaticInitializerView::Block(f) => p(f),
    }
}

/// Whether the functions of a class meet `p`.
pub open spec fn class_all(c: ClassView, p: spec_fn(FunctionView) -> bool) -> bool {
    &&& c.constructor matches Some(f) ==> p(f)
    &&& table_all(c.methods, p)
    &&& table_all(c.static_methods, p)
    &&& table_all(c.getters, p)
    &&& table_all(c.setters, p)
    &&& table_all(c.super_methods, p)
    &&& table_all(c.super_getters, p)
    &&& table_all(c.super_setters, p)
    &&& forall|i: int|
        0 <= i < c.super_constructor_chain.len() ==> level_all(
            #[trigger] c.super_constructor_chain[i],
            p,
        )
    &&& forall|i: int|
        0 <= i < c.field_initializers.len() ==> p((#[trigger] c.field_initializers[i]).1)
    &&& forall|i: int|
        0 <= i < c.static_initializers.len() ==> initializer_all(
            #[trigger] c.static_initializers[i],
            p,
        )
}

/// Whether an object meets `p` if it is a function, and its functions do if it is a
/// class.
pub open spec fn object_all(o: ObjectView, p: spec_fn(FunctionView) -> bool) -> bool {
    match o {
        ObjectView::Function(f) => p(f),
        ObjectView::Class(c) => class_all(c, p),
        _ => true,
    }
}

/// Whether the functions of the classes of a table meet `p`.
pub open spec fn classes_all(t: Names<ClassView>, p: spec_fn(FunctionView) -> bool) -> bool {
    forall|name: Seq<char>| #[trigger] t.has(name) ==> class_all(t.map[name], p)
}

proof fn lemma_table_weaker(
    t: Names<FunctionView>,
    p: spec_fn(FunctionView) -> bool,
    q: spec_fn(FunctionView) -> bool,
)
    requires
        table_all(t, p),
        forall|f: FunctionView| #[trigger] p(f) ==> q(f),
    ensures
        table_all(t, q),
{
    assert forall|name: Seq<char>| #[trigger] t.has(name) implies q(t.map[name]) by {
        assert(p(t.map[name]));
    }
}

/// What meets a condition meets a weaker one.
pub proof fn lemma_object_weaker(
    o: ObjectView,
    p: spec_fn(FunctionView) -> bool,
    q: spec_fn(FunctionView) -> bool,
)
    requires
        object_all(o, p),
        forall|f: FunctionView| #[trigger] p(f) ==> q(f),
    ensures
        object_all(o, q),
{
    if let ObjectView::Class(c) = o {
        lemma_table_weaker(c.methods, p, q);
        lemma_table_weaker(c.static_methods, p, q);
        lemma_table_weaker(c.getters, p, q);
        lemma_table_weaker(c.setters, p, q);
        lemma_table_weaker(c.super_methods, p, q);
        lemma_table_weaker(c.super_getters, p, q);
        lemma_table_weaker(c.super_setters, p, q);
        assert forall|i: int| 0 <= i < c.super_constructor_chain.len() implies level_all(
            #[trigger] c.super_constructor_chain[i],
            q,
        ) by {
            let l = c.super_constructor_chain[i];
            assert(level_all(l, p));
            lemma_table_weaker(l.methods, p, q);
            lemma_table_weaker(l.getters, p, q);
            lemma_table_weaker(l.setters, p, q);
        }
        assert forall|i: int| 0 <= i < c.field_initializers.len() implies q(
            (#[trigger] c.field_initializers[i]).1,
        ) by {
            assert(p(c.field_initializers[i].1));
        }
        assert forall|i: int| 0 <= i < c.static_initializers.len() implies initializer_all(
            #[trigger] c.static_initializers[i],
            q,
        ) by {
            assert(initializer_all(c.static_initializers[i], p));
        }
    }
}

proof fn lemma_table_set(
    t: Names<FunctionView>,
    name: Seq<char>,
    f: FunctionView,
    p: spec_fn(FunctionView) -> bool,
)
    requires
        table_all(t, p),
        p(f),
    ensures
        table_all(t.set(name, f), p),
{
    let u = t.set(name, f);
    assert forall|n: Seq<char>| #[trigger] u.has(n) implies p(u.map[n]) by {
        assert(n == name || t.has(n));
    }
}

/// A class to which such a method is added is such a class.
pub proof fn lemma_with_method(
    class: ClassView,
    name: Seq<char>,
    is_static: bool,
    is_getter: bool,
    is_setter: bool,
    f: FunctionView,
    p: spec_fn(FunctionView) -> bool,
)
    requires
        class_all(class, p),
        p(f),
    ensures
        class_all(with_method(class, name, is_static, is_getter, is_setter, f), p),
{
    lemma_table_set(class.methods, name, f, p);
    lemma_table_set(class.static_methods, name, f, p);
    lemma_table_set(class.getters, name, f, p);
    lemma_table_set(class.setters, name, f, p);
}

/// A class to which such a field is added is such a class.
pub proof fn lemma_with_field(
    class: ClassView,
    name: Seq<char>,
    is_static: bool,
    f: FunctionView,
    p: spec_fn(FunctionView) -> bool,
)
    requires
        class_all(class, p),
        p(f),
    ensures
        class_all(with_field(class, name, is_static, f), p),
{
    let after = with_field(class, name, is_static, f);
    assert forall|i: int| 0 <= i < after.field_initializers.len() implies p(
        (#[trigger] after.field_initializers[i]).1,
    ) by {
        if i < class.field_initializers.len() {
            assert(p(class.field_initializers[i].1));
        }
    }
    assert forall|i: int| 0 <= i < after.static_initializers.len() implies initializer_all(
        #[trigger] after.static_initializers[i],
        p,
    ) by {
        if i < class.static_initializers.len() {
            assert(initializer_all(class.static_initializers[i], p));
        }
    }
}

/// A class to which such a static block is added is such a class.
pub proof fn lemma_with_block(
    class: ClassView,
    f: FunctionView,
    p: spec_fn(FunctionView) -> bool,
)
    requires
        class_all(class, p),
        p(f),
    ensures
        class_all(
            (ClassView {
                static_initializers: class.static_initializers.push(
                    StaticInitializerView::Block(f),
                ),
                ..class
            }),
            p,
        ),
{
    let list = class.static_initializers.push(StaticInitializerView::Block(f));
    assert forall|i: int| 0 <= i < list.len() implies initializer_all(#[trigger] list[i], p) by {
        if i < class.static_initializers.len() {
            assert(initializer_all(class.static_initializers[i], p));
        }
    }
}

/// A class that inherits from such a class is one.
pub proof fn lemma_derived(
    name: Seq<char>,
    parent: Option<(Seq<char>, ClassView)>,
    p: spec_fn(FunctionView) -> bool,
)
    requires
        parent matches Some(found) ==> class_all(found.1, p),
    ensures
        class_all(derived_class(name, parent), p),
{
    if let Some((_, found)) = parent {
        if let Some(f) = found.constructor {
            lemma_table_set(found.methods, "constructor"@, f, p);
        }
    }
}

/// A table in which such a class is filed is one of such classes.
pub proof fn lemma_class_filed(
    t: Names<ClassView>,
    name: Seq<char>,
    class: ClassView,
    p: spec_fn(FunctionView) -> bool,
)
    requires
        classes_all(t, p),
        class_all(class, p),
    ensures
        classes_all(t.set(name, class), p),
{
    let u = t.set(name, class);
    assert forall|n: Seq<char>| #[trigger] u.has(n) implies class_all(u.map[n], p) by {
        assert(n == name || t.has(n));
    }
}

} // verus!
