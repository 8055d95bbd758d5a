//! What a class that was compiled to register code holds: what it inherits, and the members
//! that it has of its own.
use vstd::prelude::*;

use crate::ast::{ClassMember, ClassMethod, Expression};
use crate::names::Names;
use crate::object::{ClassView, FunctionView, StaticInitializerView};
use crate::rcodegen::RView;
use crate::rrules::{
    class_rrule, members_rrule, rderived_class, rgen_body, rgen_class, rgen_field, rgen_function,
    rgen_members,
};
use crate::rules::{parent_class, parent_name, with_field, with_method};

verus! {

/// Where a method of a class goes.
pub enum Shelf {
    Methods,
    Statics,
    Getters,
    Setters,
}

/// The methods of a class on a shelf.
pub open spec fn shelved(class: ClassView, shelf: Shelf) -> Names<FunctionView> {
    match shelf {
        Shelf::Methods => class.methods,
        Shelf::Statics => class.static_methods,
        Shelf::Getters => class.getters,
        Shelf::Setters => class.setters,
    }
}

/// Whether a member of a class belongs on a shelf under a name.
pub open spec fn belongs(m: ClassMethod, shelf: Shelf, name: Seq<char>) -> bool {
    &&& m.name@ == name
    &&& name != "constructor"@
    &&& match shelf {
        Shelf::Methods => !m.is_static && !m.is_getter && !m.is_setter,
        Shelf::Statics => m.is_static,
        Shelf::Getters => !m.is_static && m.is_getter,
        Shelf::Setters => !m.is_static && !m.is_getter && m.is_setter,
    }
}

/// Whether the member at a position is a method that belongs on a shelf under a name.
pub open spec fn fills(
    members: Seq<ClassMember>,
    k: int,
    shelf: Shelf,
    name: Seq<char>,
) -> bool {
    0 <= k < members.len() && (members[k] matches ClassMember::Method(m) && belongs(
        m,
        shelf,
        name,
    ))
}

/// Whether a function is what a method was compiled to.
pub open spec fn is_method_code(m: ClassMethod, f: FunctionView) -> bool {
    exists|s: RView|
        f == (#[trigger] rgen_function(s, m.parameters, m.body, true, false, false)).1
}

/// Whether a function is what the initial value of a field was compiled to.
pub open spec fn is_field_code(initializer: Option<Expression>, f: FunctionView) -> bool {
    exists|s: RView| f == (#[trigger] rgen_field(s, initializer)).1
}

/// The positions from `i` on of the fields that instances get.
pub open spec fn own_fields(members: Seq<ClassMember>, i: int) -> Seq<int>
    decreases members.len() - i,
{
    if i < 0 || i >= members.len() {
        Seq::empty()
    } else {
        let rest = own_fields(members, i + 1);
        match members[i] {
            ClassMember::Field { is_static, .. } => if is_static {
                rest
            } else {
                seq![i] + rest
            },
            _ => rest,
        }
    }
}

/// The positions from `i` on of what is run once, when the class is defined.
pub open spec fn run_once(members: Seq<ClassMember>, i: int) -> Seq<int>
    decreases members.len() - i,
{
    if i < 0 || i >= members.len() {
        Seq::empty()
    } else {
        let rest = run_once(members, i + 1);
        match members[i] {
            ClassMember::Field { is_static, .. } => if is_static {
                seq![i] + rest
            } else {
                rest
            },
            ClassMember::StaticBlock { .. } => seq![i] + rest,
            _ => rest,
        }
    }
}

/// Whether an initializer of instances is that of the member at a position.
pub open spec fn is_initializer(
    members: Seq<ClassMember>,
    k: int,
    field: (Seq<char>, FunctionView),
) -> bool {
    0 <= k < members.len() && (members[k] matches ClassMember::Field { name, initializer, .. }
        && field.0 == name@ && is_field_code(initializer, field.1))
}

/// Whether something that is run once is the member at a position.
pub open spec fn is_static_part(
    members: Seq<ClassMember>,
    k: int,
    part: StaticInitializerView,
) -> bool {
    0 <= k < members.len() && match members[k] {
        ClassMember::Field { name, initializer, .. } => part matches StaticInitializerView::Field(
            n,
            f,
        ) && n == name@ && is_field_code(initializer, f),
        ClassMember::StaticBlock { body } => part matches StaticInitializerView::Block(f)
            && exists|s: RView|
            f == (#[trigger] rgen_body(s, Seq::empty(), None, body, true, false, false)).1,
        _ => false,
    }
}

/// What the members of a class from position `i` on make of a class.
pub open spec fn adds_members(
    before: ClassView,
    after: ClassView,
    members: Seq<ClassMember>,
    i: int,
) -> bool {
    &&& forall|shelf: Shelf, name: Seq<char>|
        (forall|k: int| i <= k ==> !#[trigger] fills(members, k, shelf, name)) ==> (
        #[trigger] shelved(after, shelf).get(name)) == shelved(before, shelf).get(name)
    &&& forall|shelf: Shelf, name: Seq<char>, k: int|
        i <= k && #[trigger] fills(members, k, shelf, name) && (forall|j: int|
            k < j ==> !#[trigger] fills(members, j, shelf, name))
            ==> shelved(after, shelf).has(name) && (members[k] matches ClassMember::Method(m)
            && is_method_code(m, shelved(after, shelf).map[name]))
    &&& (forall|k: int|
        i <= k < members.len() ==> !(#[trigger] members[k] matches ClassMember::Method(m)
            && m.name@ == "constructor"@)) ==> after.constructor == before.constructor
    &&& forall|k: int|
        i <= k < members.len() && (members[k] matches ClassMember::Method(m) && m.name@
            == "constructor"@ && forall|j: int|
            k < j < members.len() ==> !(#[trigger] members[j] matches ClassMember::Method(other)
                && other.name@ == "constructor"@)) ==> after.constructor is Some && (
        #[trigger] members[k] matches ClassMember::Method(m) && is_method_code(
            m,
            after.constructor->0,
        ))
    &&& ({
        let own = own_fields(members, i);
        let n = before.field_initializers.len();
        &&& after.field_initializers.len() == n + own.len()
        &&& after.field_initializers.take(n as int) == before.field_initializers
        &&& forall|j: int|
            0 <= j < own.len() ==> is_initializer(
                members,
                #[trigger] own[j],
                after.field_initializers[n + j],
            )
    })
    &&& ({
        let own = run_once(members, i);
        let n = before.static_initializers.len();
        &&& after.static_initializers.len() == n + own.len()
        &&& after.static_initializers.take(n as int) == before.static_initializers
        &&& forall|j: int|
            0 <= j < own.len() ==> is_static_part(
                members,
                #[trigger] own[j],
                after.static_initializers[n + j],
            )
    })
    &&& after.name == before.name
    &&& after.parent_chain == before.parent_chain
    &&& after.super_methods == before.super_methods
    &&& after.super_getters == before.super_getters
    &&& after.super_setters == before.super_setters
    &&& after.super_constructor_chain == before.super_constructor_chain
    &&& after.static_fields == before.static_fields
}

/// One member more.
proof fn lemma_one_more(
    before: ClassView,
    next: ClassView,
    after: ClassView,
    members: Seq<ClassMember>,
    i: int,
    f: FunctionView,
)
    requires
        0 <= i < members.len(),
        adds_members(next, after, members, i + 1),
        match members[i] {
            ClassMember::Method(m) => is_method_code(m, f) && next == with_method(
                before,
                m.name@,
                m.is_static,
                m.is_getter,
                m.is_setter,
                f,
            ),
            ClassMember::Field { name, initializer, is_static } => is_field_code(initializer, f)
                && next == with_field(before, name@, is_static, f),
            ClassMember::StaticBlock { body } => (exists|s: RView|
                f == (#[trigger] rgen_body(s, Seq::empty(), None, body, true, false, false)).1)
                && next == (ClassView {
                static_initializers: before.static_initializers.push(
                    StaticInitializerView::Block(f),
                ),
                ..before
            }),
        },
    ensures
        adds_members(before, after, members, i),
{
    assert forall|shelf: Shelf, name: Seq<char>|
        (forall|k: int| i <= k ==> !#[trigger] fills(members, k, shelf, name)) implies (
    #[trigger] shelved(after, shelf).get(name)) == shelved(before, shelf).get(name) by {
        assert(!fills(members, i, shelf, name));
        assert(shelved(after, shelf).get(name) == shelved(next, shelf).get(name));
    }
    assert forall|shelf: Shelf, name: Seq<char>, k: int|
        i <= k && #[trigger] fills(members, k, shelf, name) && (forall|j: int|
            k < j ==> !#[trigger] fills(members, j, shelf, name)) implies shelved(
        after,
        shelf,
    ).has(name) && (members[k] matches ClassMember::Method(m) && is_method_code(
        m,
        shelved(after, shelf).map[name],
    )) by {
        if k == i {
            assert(shelved(after, shelf).get(name) == shelved(next, shelf).get(name));
            assert(shelved(next, shelf).get(name) == Some(f));
        }
    }
    assert forall|k: int|
        i <= k < members.len() && (members[k] matches ClassMember::Method(m) && m.name@
            == "constructor"@ && forall|j: int|
            k < j < members.len() ==> !(#[trigger] members[j] matches ClassMember::Method(other)
                && other.name@ == "constructor"@)) implies after.constructor is Some && (
    #[trigger] members[k] matches ClassMember::Method(m) && is_method_code(
        m,
        after.constructor->0,
    )) by {
        if k == i {
            assert(after.constructor == next.constructor);
        }
    }
    if forall|k: int|
        i <= k < members.len() ==> !(#[trigger] members[k] matches ClassMember::Method(m)
            && m.name@ == "constructor"@) {
        assert(!(members[i] matches ClassMember::Method(m) && m.name@ == "constructor"@));
        assert(next.constructor == before.constructor);
    }
    let own = own_fields(members, i);
    let rest = own_fields(members, i + 1);
    let n = before.field_initializers.len();
    assert(next.field_initializers.take(n as int) =~= before.field_initializers);
    assert(after.field_initializers.take(n as int) =~= before.field_initializers) by {
        let m = next.field_initializers.len() as int;
        assert(after.field_initializers.take(n as int) =~= after.field_initializers.take(m).take(
            n as int,
        ));
    }
    assert forall|j: int| 0 <= j < own.len() implies is_initializer(
        members,
        #[trigger] own[j],
        after.field_initializers[n + j],
    ) by {
        if own.len() > rest.len() {
            if j > 0 {
                assert(own[j] == rest[j - 1]);
            } else {
                let m = next.field_initializers.len() as int;
                assert(after.field_initializers.take(m)[n as int] == next.field_initializers[n as int]);
            }
        } else {
            assert(own[j] == rest[j]);
        }
    }
    let own = run_once(members, i);
    let rest = run_once(members, i + 1);
    let n = before.static_initializers.len();
    assert(next.static_initializers.take(n as int) =~= before.static_initializers);
    assert(after.static_initializers.take(n as int) =~= before.static_initializers) by {
        let m = next.static_initializers.len() as int;
        assert(after.static_initializers.take(n as int) =~= after.static_initializers.take(m).take(
            n as int,
        ));
    }
    assert forall|j: int| 0 <= j < own.len() implies is_static_part(
        members,
        #[trigger] own[j],
        after.static_initializers[n + j],
    ) by {
        if own.len() > rest.len() {
            if j > 0 {
                assert(own[j] == rest[j - 1]);
            } else {
                let m = next.static_initializers.len() as int;
                assert(after.static_initializers.take(m)[n as int]
                    == next.static_initializers[n as int]);
            }
        } else {
            assert(own[j] == rest[j]);
        }
    }
}

/// Each method of a class is on the shelf where it belongs, under its name, and the
/// last of several is. What no member defines is as it was before. Fields are
/// initialized in the order in which they are written, after those that were there.
pub proof fn law_members_are_added(
    s: RView,
    class: ClassView,
    members: Vec<ClassMember>,
    i: int,
)
    requires
        0 <= i,
    ensures
        adds_members(class, rgen_members(s, class, members, i).1, members@, i),
    decreases members@.len() - i,
{
    reveal(members_rrule);
    let after = rgen_members(s, class, members, i).1;
    if i < members@.len() {
        match members@[i] {
            ClassMember::Method(m) => {
                let (t, f) = rgen_function(s, m.parameters, m.body, true, false, false);
                let next = with_method(class, m.name@, m.is_static, m.is_getter, m.is_setter, f);
                law_members_are_added(t, next, members, i + 1);
                lemma_one_more(class, next, after, members@, i, f);
            },
            ClassMember::Field { name, initializer, is_static } => {
                let (t, f) = rgen_field(s, initializer);
                let next = with_field(class, name@, is_static, f);
                law_members_are_added(t, next, members, i + 1);
                lemma_one_more(class, next, after, members@, i, f);
            },
            ClassMember::StaticBlock { body } => {
                let (t, f) = rgen_body(s, Seq::empty(), None, body, true, false, false);
                let next = ClassView {
                    static_initializers: class.static_initializers.push(
                        StaticInitializerView::Block(f),
                    ),
                    ..class
                };
                law_members_are_added(t, next, members, i + 1);
                lemma_one_more(class, next, after, members@, i, f);
            },
        }
    } else {
        assert(after == class);
        assert(after.field_initializers.take(class.field_initializers.len() as int)
            =~= class.field_initializers);
        assert(after.static_initializers.take(class.static_initializers.len() as int)
            =~= class.static_initializers);
        assert forall|k: int, shelf: Shelf, name: Seq<char>| i <= k implies !#[trigger] fills(
            members@,
            k,
            shelf,
            name,
        ) by {}
    }
}

/// The class that a class extends, if it is known.
pub open spec fn known_parent(
    s: RView,
    extends: Option<Box<Expression>>,
    name: Seq<char>,
    parent: ClassView,
) -> bool {
    &&& extends matches Some(e) && (*e matches Expression::Identifier(n) && n@ == name)
    &&& s.class_defs.has(name)
    &&& s.class_defs.map[name] == parent
}

/// A class has each method and accessor of the class that it extends, unless it defines
/// one of that name itself, and what it reaches through `super` are those of the class
/// that it extends, whatever it defines itself. The fields of the class that it extends
/// are initialized first.
pub proof fn law_class_inherits(
    s: RView,
    name: Option<String>,
    extends: Option<Box<Expression>>,
    members: Vec<ClassMember>,
    parent_name: Seq<char>,
    parent: ClassView,
)
    requires
        known_parent(s, extends, parent_name, parent),
    ensures
        ({
            let class = rgen_class(s, name, extends, members).1;
            &&& class.parent_chain == seq![parent_name] + parent.parent_chain
            &&& forall|shelf: Shelf, n: Seq<char>|
                !(shelf is Statics) && #[trigger] shelved(parent, shelf).has(n)
                    ==> shelved(class, shelf).has(n)
            &&& forall|shelf: Shelf, n: Seq<char>|
                !(shelf is Statics) && (forall|k: int|
                    !#[trigger] fills(members@, k, shelf, n)) ==> (#[trigger] shelved(
                    class,
                    shelf,
                ).get(n)) == shelved(parent, shelf).get(n)
            &&& forall|n: Seq<char>|
                n != "constructor"@ ==> (#[trigger] class.super_methods.get(n))
                    == parent.methods.get(n)
            &&& parent.constructor matches Some(f) ==> class.super_methods.get("constructor"@)
                == Some(f)
            &&& forall|n: Seq<char>| (#[trigger] class.super_getters.get(n)) == parent.getters.get(n)
            &&& forall|n: Seq<char>| (#[trigger] class.super_setters.get(n)) == parent.setters.get(n)
            &&& class.field_initializers.len() >= parent.field_initializers.len()
            &&& class.field_initializers.take(parent.field_initializers.len() as int)
                == parent.field_initializers
            &&& parent.super_methods.order.len() > 0 ==> {
                &&& class.super_constructor_chain.len() == parent.super_constructor_chain.len() + 1
                &&& class.super_constructor_chain[0].methods == parent.super_methods
                &&& class.super_constructor_chain[0].getters == parent.super_getters
                &&& class.super_constructor_chain[0].setters == parent.super_setters
                &&& class.super_constructor_chain.skip(1) == parent.super_constructor_chain
            }
        }),
{
    reveal(class_rrule);
    reveal(rderived_class);
    let class = rgen_class(s, name, extends, members).1;
    let own_name = match name {
        Some(n) => n@,
        None => ""@,
    };
    let bare = rderived_class(own_name, parent_class(crate::rules::parent_name(extends), s.class_defs));
    law_members_are_added(s, bare, members, 0);
    assert forall|shelf: Shelf, n: Seq<char>|
        !(shelf is Statics) && #[trigger] shelved(parent, shelf).has(n) implies shelved(
        class,
        shelf,
    ).has(n) by {
        lemma_filled_or_not(members@, shelf, n, members@.len() as int);
        if forall|k: int| 0 <= k ==> !#[trigger] fills(members@, k, shelf, n) {
            assert(shelved(class, shelf).get(n) == shelved(bare, shelf).get(n));
        }
    }
    assert forall|shelf: Shelf, n: Seq<char>|
        !(shelf is Statics) && (forall|k: int|
            !#[trigger] fills(members@, k, shelf, n)) implies (#[trigger] shelved(
        class,
        shelf,
    ).get(n)) == shelved(parent, shelf).get(n) by {
        assert(shelved(class, shelf).get(n) == shelved(bare, shelf).get(n));
    }
}

/// If members fill a place on a shelf, one is the last that does.
proof fn lemma_filled_or_not(
    members: Seq<ClassMember>,
    shelf: Shelf,
    name: Seq<char>,
    n: int,
)
    requires
        0 <= n <= members.len(),
        forall|k: int| n <= k ==> !#[trigger] fills(members, k, shelf, name),
    ensures
        (forall|k: int| 0 <= k ==> !#[trigger] fills(members, k, shelf, name)) || (exists|k: int|
            0 <= k && #[trigger] fills(members, k, shelf, name) && (forall|j: int|
                k < j ==> !#[trigger] fills(members, j, shelf, name))),
    decreases n,
{
    if n > 0 {
        if fills(members, n - 1, shelf, name) {
            assert(fills(members, n - 1, shelf, name) && (forall|j: int|
                n - 1 < j ==> !#[trigger] fills(members, j, shelf, name)));
        } else {
            assert forall|k: int| n - 1 <= k implies !#[trigger] fills(
                members,
                k,
                shelf,
                name,
            ) by {}
            lemma_filled_or_not(members, shelf, name, n - 1);
        }
    }
}

/// A class that extends nothing holds nothing but its own members.
pub proof fn law_class_without_parent(
    s: RView,
    name: Option<String>,
    members: Vec<ClassMember>,
)
    ensures
        ({
            let class = rgen_class(s, name, None, members).1;
            &&& class.parent_chain.len() == 0
            &&& class.super_methods.order.len() == 0
            &&& class.super_constructor_chain.len() == 0
            &&& class.field_initializers.len() == own_fields(members@, 0).len()
            &&& class.static_initializers.len() == run_once(members@, 0).len()
            &&& forall|shelf: Shelf, n: Seq<char>|
                (forall|k: int| !#[trigger] fills(members@, k, shelf, n))
                    ==> !#[trigger] shelved(class, shelf).has(n)
        }),
{
    reveal(class_rrule);
    reveal(rderived_class);
    let own_name = match name {
        Some(n) => n@,
        None => ""@,
    };
    let class = rgen_class(s, name, None, members).1;
    let bare = rderived_class(own_name, None);
    law_members_are_added(s, bare, members, 0);
    assert forall|shelf: Shelf, n: Seq<char>|
        (forall|k: int| !#[trigger] fills(members@, k, shelf, n)) implies !#[trigger] shelved(
        class,
        shelf,
    ).has(n) by {
        assert(shelved(class, shelf).get(n) == shelved(bare, shelf).get(n));
    }
}

/// A class with a name can be extended by that name from then on.
pub proof fn law_class_is_filed(
    s: RView,
    name: String,
    extends: Option<Box<Expression>>,
    members: Vec<ClassMember>,
)
    ensures
        ({
            let (t, class) = rgen_class(s, Some(name), extends, members);
            t.class_defs.get(name@) == Some(class) && class.name == name@
        }),
{
    reveal(class_rrule);
    reveal(RView::define_class);
    reveal(rderived_class);
    let bare = rderived_class(name@, parent_class(parent_name(extends), s.class_defs));
    law_members_are_added(s, bare, members, 0);
}

} // verus!
