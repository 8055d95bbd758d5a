//! Finding the objects of the heap that are still in use.
//!
//! An object refers to others through the values it holds, and through the
//! objects nested in it. Marking follows both.
use vstd::prelude::*;

use crate::hash::{pair_map_entries, HashObject};
use crate::key::HashKey;
use crate::heap::{are_comparisons, first_true, is_cell, Heap};
use crate::names::{lemma_items_decrease, NameMap};
use crate::object::{
    CapturedValue, ClassObject, CompiledFunctionObject, FieldInitializer, FunctionTable,
    GeneratorObject, InstanceObject, Object, PromiseState, StaticInitializer, SuperLevel,
    SuperRefObject,
};
use crate::value::Value;

verus! {

/// What is asked of everything that an object refers to: of the positions that
/// its values name, and of the objects nested in it. A nested object must meet
/// `need`, and unless it meets `stop` the same is asked of what it refers to.
pub struct Rule {
    pub slot: spec_fn(u32) -> bool,
    pub need: spec_fn(Object) -> bool,
    pub stop: spec_fn(Object) -> bool,
}

pub open spec fn value_ok(v: Value, r: Rule) -> bool {
    v matches Value::Heap(i) ==> (r.slot)(i)
}

pub open spec fn values_ok(v: Seq<Value>, r: Rule) -> bool {
    forall|i: int| 0 <= i < v.len() ==> value_ok(#[trigger] v[i], r)
}

/// Whether a nested object meets a rule.
pub open spec fn nested_ok(o: Object, r: Rule) -> bool
    decreases o, 1int,
{
    (r.need)(o) && ((r.stop)(o) || object_ok(o, r))
}

/// Whether everything that an object refers to meets a rule.
pub open spec fn object_ok(o: Object, r: Rule) -> bool
    decreases o, 0int,
{
    match o {
        Object::Hash(h) => hash_ok(h.value, r),
        Object::Array(items) => values_ok(items.value@, r),
        Object::CompiledFunction(f) => function_ok(*f, r),
        Object::JsMap(m) => forall|i: int|
            0 <= i < m.entries.value@.len() ==> value_ok((#[trigger] m.entries.value@[i]).1, r),
        Object::Generator(g) => generator_ok(g.value, r),
        Object::Class(c) => class_ok(*c, r),
        Object::Instance(i) => instance_ok(*i, r),
        Object::BoundMethod(m) => function_ok(m.function, r) && nested_ok(*m.receiver, r),
        Object::SuperRef(s) => super_ref_ok(*s, r),
        Object::BuiltinFunction(b) => match b.receiver {
            Some(o) => nested_ok(o, r),
            None => true,
        },
        Object::ReturnValue(v) => nested_ok(*v, r),
        Object::Promise(p) => match p.settled {
            PromiseState::Fulfilled(v) => nested_ok(*v, r),
            PromiseState::Rejected(v) => nested_ok(*v, r),
        },
        _ => true,
    }
}

pub open spec fn objects_ok(v: Vec<Object>, r: Rule) -> bool
    decreases v, 0int,
{
    forall|i: int| 0 <= i < v@.len() ==> nested_ok(#[trigger] v@[i], r)
}

pub open spec fn function_ok(f: CompiledFunctionObject, r: Rule) -> bool
    decreases f, 0int,
{
    &&& forall|i: int|
        0 <= i < f.captured_values@.len() ==> value_ok((#[trigger] f.captured_values@[i]).value, r)
    &&& objects_ok(*f.constants, r)
}

pub open spec fn functions_ok(t: FunctionTable, r: Rule) -> bool
    decreases t, 0int,
{
    proof {
        assert forall|i: int| 0 <= i < t.items().len() implies decreases_to!(
            t => (#[trigger] t.items()[i]).1
        ) by {
            lemma_items_decrease(t, i);
        }
    }
    forall|i: int| 0 <= i < t.items().len() ==> function_ok((#[trigger] t.items()[i]).1, r)
}

pub open spec fn fields_ok(t: NameMap<Object>, r: Rule) -> bool
    decreases t, 0int,
{
    proof {
        assert forall|i: int| 0 <= i < t.items().len() implies decreases_to!(
            t => (#[trigger] t.items()[i]).1
        ) by {
            lemma_items_decrease(t, i);
        }
    }
    forall|i: int| 0 <= i < t.items().len() ==> nested_ok((#[trigger] t.items()[i]).1, r)
}

pub open spec fn accessors_ok(t: Option<Box<FunctionTable>>, r: Rule) -> bool
    decreases t, 0int,
{
    match t {
        Some(t) => functions_ok(*t, r),
        None => true,
    }
}

pub open spec fn level_ok(l: SuperLevel, r: Rule) -> bool
    decreases l, 0int,
{
    functions_ok(l.methods, r) && functions_ok(l.getters, r) && functions_ok(l.setters, r)
}

pub open spec fn levels_ok(v: Vec<SuperLevel>, r: Rule) -> bool
    decreases v, 0int,
{
    forall|i: int| 0 <= i < v@.len() ==> level_ok(#[trigger] v@[i], r)
}

pub open spec fn initializers_ok(v: Vec<FieldInitializer>, r: Rule) -> bool
    decreases v, 0int,
{
    forall|i: int| 0 <= i < v@.len() ==> function_ok((#[trigger] v@[i]).thunk, r)
}

pub open spec fn static_ok(s: StaticInitializer, r: Rule) -> bool
    decreases s, 0int,
{
    match s {
        StaticInitializer::Field { thunk, .. } => function_ok(thunk, r),
        StaticInitializer::Block { thunk } => function_ok(thunk, r),
    }
}

pub open spec fn statics_ok(v: Vec<StaticInitializer>, r: Rule) -> bool
    decreases v, 0int,
{
    forall|i: int| 0 <= i < v@.len() ==> static_ok(#[trigger] v@[i], r)
}

pub open spec fn hash_ok(h: HashObject, r: Rule) -> bool
    decreases h, 0int,
{
    &&& forall|i: int|
        0 <= i < pair_map_entries(h.pairs).len() ==> value_ok(
            (#[trigger] pair_map_entries(h.pairs)[i]).1,
            r,
        )
    &&& values_ok(h.values@, r)
    &&& objects_ok(h.local_objects, r)
    &&& accessors_ok(h.getters, r)
    &&& accessors_ok(h.setters, r)
}

pub open spec fn generator_ok(g: GeneratorObject, r: Rule) -> bool
    decreases g, 0int,
{
    &&& objects_ok(g.locals, r)
    &&& values_ok(g.args@, r)
    &&& match g.receiver {
        Some(v) => value_ok(v, r),
        None => true,
    }
    &&& function_ok(g.function, r)
}

pub open spec fn class_ok(c: ClassObject, r: Rule) -> bool
    decreases c, 0int,
{
    &&& match c.constructor {
        Some(f) => function_ok(f, r),
        None => true,
    }
    &&& functions_ok(c.methods, r)
    &&& functions_ok(c.static_methods, r)
    &&& functions_ok(c.getters, r)
    &&& functions_ok(c.setters, r)
    &&& functions_ok(c.super_methods, r)
    &&& functions_ok(c.super_getters, r)
    &&& functions_ok(c.super_setters, r)
    &&& levels_ok(c.super_constructor_chain, r)
    &&& initializers_ok(c.field_initializers, r)
    &&& statics_ok(c.static_initializers, r)
    &&& fields_ok(c.static_fields, r)
}

pub open spec fn instance_ok(i: InstanceObject, r: Rule) -> bool
    decreases i, 0int,
{
    &&& fields_ok(i.fields, r)
    &&& functions_ok(i.methods, r)
    &&& functions_ok(i.getters, r)
    &&& functions_ok(i.setters, r)
    &&& functions_ok(i.super_methods, r)
    &&& functions_ok(i.super_getters, r)
    &&& functions_ok(i.super_setters, r)
    &&& levels_ok(i.super_constructor_chain, r)
}

pub open spec fn super_ref_ok(s: SuperRefObject, r: Rule) -> bool
    decreases s, 0int,
{
    &&& nested_ok(*s.receiver, r)
    &&& functions_ok(s.methods, r)
    &&& functions_ok(s.getters, r)
    &&& functions_ok(s.setters, r)
    &&& levels_ok(s.constructor_chain, r)
}

// Marks

/// Whether a position is marked. Positions beyond the marks count as marked:
/// nothing is asked of what is there.
pub open spec fn is_marked(m: Seq<bool>, i: int) -> bool {
    0 <= i < m.len() ==> m[i]
}

/// Whether `b` marks what `a` marks.
pub open spec fn grown(a: Seq<bool>, b: Seq<bool>) -> bool {
    &&& a.len() == b.len()
    &&& forall|i: int| 0 <= i < a.len() && #[trigger] a[i] ==> b[i]
}

/// The number of positions without a mark.
pub open spec fn unmarked(m: Seq<bool>) -> nat
    decreases m.len(),
{
    if m.len() == 0 {
        0
    } else {
        unmarked(m.drop_last()) + if m.last() {
            0nat
        } else {
            1
        }
    }
}

/// Whether the object of the heap that an object is, as comparing them tells, is
/// marked.
pub open spec fn own_place_marked(objects: Seq<Object>, m: Seq<bool>, o: Object) -> bool {
    exists|same: Seq<bool>| #[trigger]
        are_comparisons(objects, o, same) && match first_true(same, 0) {
            Some(i) => is_marked(m, i as int),
            None => true,
        }
}

/// Everything referred to is marked, and of a nested cell that is an object of the
/// heap itself that object is. What such a cell refers to may be left to the object.
pub open spec fn cover_rule(objects: Seq<Object>, m: Seq<bool>) -> Rule {
    Rule {
        slot: |i: u32| is_marked(m, i as int),
        need: |o: Object| own_place_marked(objects, m, o),
        stop: |o: Object|
            is_cell(o) && exists|k: int|
                0 <= k < objects.len() && is_marked(m, k) && #[trigger] objects[k] == o,
    }
}

/// Everything referred to lies in a set of positions, and so do the objects of
/// the heap that a nested cell may be.
pub open spec fn within_rule(objects: Seq<Object>, c: Set<int>) -> Rule {
    Rule {
        slot: |i: u32| i < objects.len() ==> c.contains(i as int),
        need: |o: Object|
            is_cell(o) ==> forall|k: int|
                0 <= k < objects.len() && #[trigger] objects[k] == o ==> c.contains(k),
        stop: |o: Object| false,
    }
}

/// Whether the objects at a set of positions refer only to that set.
pub open spec fn is_closed(objects: Seq<Object>, c: Set<int>) -> bool {
    forall|k: int|
        0 <= k < objects.len() && c.contains(k) ==> object_ok(
            #[trigger] objects[k],
            within_rule(objects, c),
        )
}

/// What marking does for a part of the heap's roots, which `part` tests against
/// a rule.
///
/// Marks are only added. What the part refers to is marked, and so is what newly
/// marked objects refer to, whatever is marked after that. Nothing is marked
/// that does not lie in each set that the part refers to and that is closed.
pub open spec fn marks(
    objects: Seq<Object>,
    before: Seq<bool>,
    after: Seq<bool>,
    part: spec_fn(Rule) -> bool,
) -> bool {
    &&& grown(before, after)
    &&& unmarked(after) <= unmarked(before)
    &&& forall|m: Seq<bool>| #[trigger]
        grown(after, m) ==> part(cover_rule(objects, m)) && new_ones_covered(
            objects,
            before,
            after,
            m,
        )
    &&& forall|c: Set<int>| #[trigger]
        is_closed(objects, c) && part(within_rule(objects, c)) ==> new_ones_within(
            before,
            after,
            c,
        )
}

pub open spec fn new_ones_covered(
    objects: Seq<Object>,
    before: Seq<bool>,
    after: Seq<bool>,
    m: Seq<bool>,
) -> bool {
    forall|i: int|
        0 <= i < objects.len() && i < after.len() && after[i] && !before[i] ==> object_ok(
            #[trigger] objects[i],
            cover_rule(objects, m),
        )
}

pub open spec fn new_ones_within(before: Seq<bool>, after: Seq<bool>, c: Set<int>) -> bool {
    forall|i: int| 0 <= i < after.len() && #[trigger] after[i] ==> before[i] || c.contains(i)
}

/// The part that refers to nothing.
pub open spec fn nothing() -> spec_fn(Rule) -> bool {
    |r: Rule| true
}

/// Two parts together.
pub open spec fn both(p: spec_fn(Rule) -> bool, q: spec_fn(Rule) -> bool) -> spec_fn(Rule) -> bool {
    |r: Rule| p(r) && q(r)
}

proof fn lemma_grown_chain(a: Seq<bool>, b: Seq<bool>, c: Seq<bool>)
    requires
        grown(a, b),
        grown(b, c),
    ensures
        grown(a, c),
{
}

pub(crate) proof fn lemma_nothing(objects: Seq<Object>, m: Seq<bool>)
    ensures
        marks(objects, m, m, nothing()),
{
}

pub(crate) proof fn lemma_then(
    objects: Seq<Object>,
    a: Seq<bool>,
    b: Seq<bool>,
    c: Seq<bool>,
    p: spec_fn(Rule) -> bool,
    q: spec_fn(Rule) -> bool,
)
    requires
        marks(objects, a, b, p),
        marks(objects, b, c, q),
    ensures
        marks(objects, a, c, both(p, q)),
{
    lemma_grown_chain(a, b, c);
    assert forall|m: Seq<bool>| #[trigger] grown(c, m) implies both(p, q)(cover_rule(objects, m))
        && new_ones_covered(objects, a, c, m) by {
        lemma_grown_chain(b, c, m);
    }
    assert forall|s: Set<int>| #[trigger]
        is_closed(objects, s) && both(p, q)(within_rule(objects, s)) implies new_ones_within(
        a,
        c,
        s,
    ) by {
        assert(new_ones_within(a, b, s));
        assert(new_ones_within(b, c, s));
    }
}

pub(crate) proof fn lemma_same_part(
    objects: Seq<Object>,
    a: Seq<bool>,
    b: Seq<bool>,
    p: spec_fn(Rule) -> bool,
    q: spec_fn(Rule) -> bool,
)
    requires
        marks(objects, a, b, p),
        forall|r: Rule| #[trigger] p(r) == q(r),
    ensures
        marks(objects, a, b, q),
{
    assert forall|m: Seq<bool>| #[trigger] grown(b, m) implies q(cover_rule(objects, m))
        && new_ones_covered(objects, a, b, m) by {
        assert(p(cover_rule(objects, m)));
    }
    assert forall|s: Set<int>| #[trigger]
        is_closed(objects, s) && q(within_rule(objects, s)) implies new_ones_within(
        a,
        b,
        s,
    ) by {
        assert(p(within_rule(objects, s)));
    }
}

proof fn lemma_one_more_mark(m: Seq<bool>, i: int)
    requires
        0 <= i < m.len(),
        !m[i],
    ensures
        unmarked(m.update(i, true)) + 1 == unmarked(m),
    decreases m.len(),
{
    let n = m.update(i, true);
    if i == m.len() - 1 {
        assert(n.drop_last() =~= m.drop_last());
    } else {
        assert(n.drop_last() =~= m.drop_last().update(i, true));
        lemma_one_more_mark(m.drop_last(), i);
    }
}

/// Marking the object at a position, and then what it refers to.
proof fn lemma_mark_at(
    objects: Seq<Object>,
    before: Seq<bool>,
    after: Seq<bool>,
    i: int,
    part: spec_fn(Rule) -> bool,
)
    requires
        before.len() <= objects.len(),
        0 <= i < before.len(),
        !before[i],
        marks(objects, before.update(i, true), after, object_part(objects[i])),
        forall|m: Seq<bool>| #[trigger]
            grown(before, m) && m[i] ==> part(cover_rule(objects, m)),
        forall|c: Set<int>| #[trigger] part(within_rule(objects, c)) ==> c.contains(i),
    ensures
        marks(objects, before, after, part),
{
    let middle = before.update(i, true);
    lemma_one_more_mark(before, i);
    assert(grown(before, middle));
    lemma_grown_chain(before, middle, after);
    assert(after[i]) by {
        assert(middle[i]);
    }
    let whole = object_part(objects[i]);
    assert forall|m: Seq<bool>| #[trigger] grown(after, m) implies part(cover_rule(objects, m))
        && new_ones_covered(objects, before, after, m) by {
        lemma_grown_chain(before, after, m);
        assert(m[i]) by {
            assert(after[i]);
        }
        assert(whole(cover_rule(objects, m)));
        assert(new_ones_covered(objects, middle, after, m));
        assert forall|k: int|
            0 <= k < objects.len() && k < after.len() && after[k] && !before[k] implies object_ok(
            #[trigger] objects[k],
            cover_rule(objects, m),
        ) by {
            if k != i {
                assert(!middle[k]);
            }
        }
    }
    assert forall|c: Set<int>| #[trigger]
        is_closed(objects, c) && part(within_rule(objects, c)) implies new_ones_within(
        before,
        after,
        c,
    ) by {
        assert(c.contains(i));
        assert(whole(within_rule(objects, c)));
        assert(new_ones_within(middle, after, c));
        assert forall|k: int| 0 <= k < after.len() && #[trigger] after[k] implies before[k]
            || c.contains(k) by {
            if k != i {
                assert(middle[k] == before[k]);
            }
        }
    }
}

// Parts of the roots

pub open spec fn value_part(x: Value) -> spec_fn(Rule) -> bool {
    |r: Rule| value_ok(x, r)
}

pub open spec fn nested_part(x: Object) -> spec_fn(Rule) -> bool {
    |r: Rule| nested_ok(x, r)
}

pub open spec fn object_part(x: Object) -> spec_fn(Rule) -> bool {
    |r: Rule| object_ok(x, r)
}

pub open spec fn values_part(x: Seq<Value>) -> spec_fn(Rule) -> bool {
    |r: Rule| values_ok(x, r)
}

pub open spec fn objects_part(x: Vec<Object>) -> spec_fn(Rule) -> bool {
    |r: Rule| objects_ok(x, r)
}

pub open spec fn function_part(x: CompiledFunctionObject) -> spec_fn(Rule) -> bool {
    |r: Rule| function_ok(x, r)
}

pub open spec fn functions_part(x: FunctionTable) -> spec_fn(Rule) -> bool {
    |r: Rule| functions_ok(x, r)
}

pub open spec fn fields_part(x: NameMap<Object>) -> spec_fn(Rule) -> bool {
    |r: Rule| fields_ok(x, r)
}

pub open spec fn accessors_part(x: Option<Box<FunctionTable>>) -> spec_fn(Rule) -> bool {
    |r: Rule| accessors_ok(x, r)
}

pub open spec fn level_part(x: SuperLevel) -> spec_fn(Rule) -> bool {
    |r: Rule| level_ok(x, r)
}

pub open spec fn levels_part(x: Vec<SuperLevel>) -> spec_fn(Rule) -> bool {
    |r: Rule| levels_ok(x, r)
}

pub open spec fn initializers_part(x: Vec<FieldInitializer>) -> spec_fn(Rule) -> bool {
    |r: Rule| initializers_ok(x, r)
}

pub open spec fn static_part(x: StaticInitializer) -> spec_fn(Rule) -> bool {
    |r: Rule| static_ok(x, r)
}

pub open spec fn statics_part(x: Vec<StaticInitializer>) -> spec_fn(Rule) -> bool {
    |r: Rule| statics_ok(x, r)
}

pub open spec fn hash_part(x: HashObject) -> spec_fn(Rule) -> bool {
    |r: Rule| hash_ok(x, r)
}

pub open spec fn generator_part(x: GeneratorObject) -> spec_fn(Rule) -> bool {
    |r: Rule| generator_ok(x, r)
}

pub open spec fn class_part(x: ClassObject) -> spec_fn(Rule) -> bool {
    |r: Rule| class_ok(x, r)
}

pub open spec fn instance_part(x: InstanceObject) -> spec_fn(Rule) -> bool {
    |r: Rule| instance_ok(x, r)
}

pub open spec fn super_ref_part(x: SuperRefObject) -> spec_fn(Rule) -> bool {
    |r: Rule| super_ref_ok(x, r)
}

/// The values that a function has captured.
pub open spec fn captured_part(f: CompiledFunctionObject) -> spec_fn(Rule) -> bool {
    |r: Rule|
        forall|i: int|
            0 <= i < f.captured_values@.len() ==> value_ok(
                (#[trigger] f.captured_values@[i]).value,
                r,
            )
}

/// The values in the pairs of a hash.
pub open spec fn pairs_part(h: HashObject) -> spec_fn(Rule) -> bool {
    |r: Rule|
        forall|i: int|
            0 <= i < pair_map_entries(h.pairs).len() ==> value_ok(
                (#[trigger] pair_map_entries(h.pairs)[i]).1,
                r,
            )
}

/// The values of a map object.
pub open spec fn entries_part(v: Seq<(HashKey, Value)>) -> spec_fn(Rule) -> bool {
    |r: Rule| forall|i: int| 0 <= i < v.len() ==> value_ok((#[trigger] v[i]).1, r)
}

/// The first `n` of a list of parts.
pub open spec fn upto(f: spec_fn(int) -> spec_fn(Rule) -> bool, n: int) -> spec_fn(Rule) -> bool {
    |r: Rule| forall|k: int| 0 <= k < n ==> #[trigger] f(k)(r)
}

pub(crate) proof fn lemma_next_part(
    objects: Seq<Object>,
    a: Seq<bool>,
    b: Seq<bool>,
    c: Seq<bool>,
    f: spec_fn(int) -> spec_fn(Rule) -> bool,
    i: int,
)
    requires
        0 <= i,
        marks(objects, a, b, upto(f, i)),
        marks(objects, b, c, f(i)),
    ensures
        marks(objects, a, c, upto(f, i + 1)),
{
    lemma_then(objects, a, b, c, upto(f, i), f(i));
    assert forall|r: Rule| #[trigger] both(upto(f, i), f(i))(r) == upto(f, i + 1)(r) by {
        if upto(f, i + 1)(r) {
            assert(f(i)(r));
            assert forall|k: int| 0 <= k < i implies #[trigger] f(k)(r) by {}
        }
        if both(upto(f, i), f(i))(r) {
            assert forall|k: int| 0 <= k < i + 1 implies #[trigger] f(k)(r) by {
                if k < i {
                    assert(upto(f, i)(r));
                }
            }
        }
    }
    lemma_same_part(objects, a, c, both(upto(f, i), f(i)), upto(f, i + 1));
}

/// An optional function.
pub open spec fn maybe_function_part(f: Option<CompiledFunctionObject>) -> spec_fn(Rule) -> bool {
    |r: Rule|
        match f {
            Some(f) => function_ok(f, r),
            None => true,
        }
}

/// An optional value.
pub open spec fn maybe_value_part(v: Option<Value>) -> spec_fn(Rule) -> bool {
    |r: Rule|
        match v {
            Some(v) => value_ok(v, r),
            None => true,
        }
}

spec fn value_list(v: Seq<Value>) -> spec_fn(int) -> spec_fn(Rule) -> bool {
    |k: int| value_part(v[k])
}

spec fn captured_list(v: Seq<CapturedValue>) -> spec_fn(int) -> spec_fn(Rule) -> bool {
    |k: int| value_part(v[k].value)
}

spec fn entry_list(v: Seq<(HashKey, Value)>) -> spec_fn(int) -> spec_fn(Rule) -> bool {
    |k: int| value_part(v[k].1)
}

spec fn object_list(v: Seq<Object>) -> spec_fn(int) -> spec_fn(Rule) -> bool {
    |k: int| nested_part(v[k])
}

spec fn function_list(v: Seq<(String, CompiledFunctionObject)>) -> spec_fn(int) -> spec_fn(Rule) -> bool {
    |k: int| function_part(v[k].1)
}

spec fn field_list(v: Seq<(String, Object)>) -> spec_fn(int) -> spec_fn(Rule) -> bool {
    |k: int| nested_part(v[k].1)
}

spec fn level_list(v: Seq<SuperLevel>) -> spec_fn(int) -> spec_fn(Rule) -> bool {
    |k: int| level_part(v[k])
}

spec fn initializer_list(v: Seq<FieldInitializer>) -> spec_fn(int) -> spec_fn(Rule) -> bool {
    |k: int| function_part(v[k].thunk)
}

spec fn static_list(v: Seq<StaticInitializer>) -> spec_fn(int) -> spec_fn(Rule) -> bool {
    |k: int| static_part(v[k])
}

/// Mark the object that a value refers to, and what that refers to.
pub fn mark_value(v: &Value, reachable: &mut Vec<bool>, heap: &Heap)
    requires
        old(reachable)@.len() <= heap.objects@.len(),
    ensures
        marks(heap.objects@, old(reachable)@, final(reachable)@, value_part(*v)),
        (match *v {
            Value::Heap(k) => k >= old(reachable)@.len() || old(reachable)@[k as int],
            _ => true,
        }) ==> final(reachable)@ == old(reachable)@,
    decreases unmarked(old(reachable)@), 0int, *v, 0int,
{
    let ghost objects = heap.objects@;
    let ghost before = reachable@;
    let ghost part = value_part(*v);
    if let Value::Heap(idx) = *v {
        let i: usize = idx as usize;
        if i < reachable.len() && !reachable[i] {
            proof {
                lemma_one_more_mark(before, i as int);
            }
            reachable[i] = true;
            mark_object_refs(&heap.objects[i], reachable, heap);
            proof {
                lemma_mark_at(objects, before, reachable@, i as int, part);
            }
            return ;
        }
    }
    proof {
        assert forall|m: Seq<bool>| #[trigger] grown(before, m) implies part(
            cover_rule(objects, m),
        ) by {
            if let Value::Heap(idx) = *v {
                if (idx as int) < m.len() {
                    assert(before[idx as int]);
                }
            }
        }
        lemma_nothing(objects, before);
    }
}

pub(crate) fn mark_values(v: &Vec<Value>, reachable: &mut Vec<bool>, heap: &Heap)
    requires
        old(reachable)@.len() <= heap.objects@.len(),
    ensures
        marks(heap.objects@, old(reachable)@, final(reachable)@, values_part(v@)),
    decreases unmarked(old(reachable)@), 1int, *v, 0int,
{
    let ghost objects = heap.objects@;
    let ghost before = reachable@;
    let ghost list = value_list(v@);
    proof {
        lemma_nothing(objects, before);
        lemma_same_part(objects, before, before, nothing(), upto(list, 0));
    }
    let mut i: usize = 0;
    while i < v.len()
        invariant
            0 <= i <= v@.len(),
            objects == heap.objects@,
            before.len() <= objects.len(),
            before == old(reachable)@,
            list == value_list(v@),
            marks(objects, before, reachable@, upto(list, i as int)),
        decreases v@.len() - i,
    {
        let ghost middle = reachable@;
        mark_value(&v[i], reachable, heap);
        proof {
            lemma_next_part(objects, before, middle, reachable@, list, i as int);
        }
        i += 1;
    }
    proof {
        assert forall|r: Rule| #[trigger] upto(list, v@.len() as int)(r) == values_part(v@)(r) by {
            if values_part(v@)(r) {
                assert forall|k: int| 0 <= k < v@.len() implies #[trigger] list(k)(r) by {}
            }
            if upto(list, v@.len() as int)(r) {
                assert forall|k: int| 0 <= k < v@.len() implies #[trigger] list(k)(r) by {}
                assert forall|k: int| 0 <= k < v@.len() implies value_ok(#[trigger] v@[k], r) by {
                    assert(list(k)(r));
                }
            }
        }
        lemma_same_part(objects, before, reachable@, upto(list, v@.len() as int), values_part(v@));
    }
}

pub(crate) fn mark_objects(v: &Vec<Object>, reachable: &mut Vec<bool>, heap: &Heap)
    requires
        old(reachable)@.len() <= heap.objects@.len(),
    ensures
        marks(heap.objects@, old(reachable)@, final(reachable)@, objects_part(*v)),
    decreases unmarked(old(reachable)@), 2int, *v, 0int,
{
    let ghost objects = heap.objects@;
    let ghost before = reachable@;
    let ghost list = object_list(v@);
    proof {
        lemma_nothing(objects, before);
        lemma_same_part(objects, before, before, nothing(), upto(list, 0));
    }
    let mut i: usize = 0;
    while i < v.len()
        invariant
            0 <= i <= v@.len(),
            objects == heap.objects@,
            before.len() <= objects.len(),
            before == old(reachable)@,
            list == object_list(v@),
            marks(objects, before, reachable@, upto(list, i as int)),
        decreases v@.len() - i,
    {
        let ghost middle = reachable@;
        assert(decreases_to!(*v => v@[i as int]));
        mark_nested_object(&v[i], reachable, heap);
        proof {
            lemma_next_part(objects, before, middle, reachable@, list, i as int);
        }
        i += 1;
    }
    proof {
        assert forall|r: Rule| #[trigger] upto(list, v@.len() as int)(r) == objects_part(*v)(r) by {
            if objects_part(*v)(r) {
                assert forall|k: int| 0 <= k < v@.len() implies #[trigger] list(k)(r) by {}
            }
            if upto(list, v@.len() as int)(r) {
                assert forall|k: int| 0 <= k < v@.len() implies #[trigger] list(k)(r) by {}
                assert forall|k: int| 0 <= k < v@.len() implies nested_ok(#[trigger] v@[k], r) by {
                    assert(list(k)(r));
                }
            }
        }
        lemma_same_part(objects, before, reachable@, upto(list, v@.len() as int), objects_part(*v));
    }
}

fn mark_functions(t: &FunctionTable, reachable: &mut Vec<bool>, heap: &Heap)
    requires
        old(reachable)@.len() <= heap.objects@.len(),
    ensures
        marks(heap.objects@, old(reachable)@, final(reachable)@, functions_part(*t)),
    decreases unmarked(old(reachable)@), 2int, *t, 0int,
{
    let ghost objects = heap.objects@;
    let ghost before = reachable@;
    let ghost list = function_list(t.items());
    proof {
        lemma_nothing(objects, before);
        lemma_same_part(objects, before, before, nothing(), upto(list, 0));
    }
    let mut i: usize = 0;
    while i < t.len()
        invariant
            0 <= i <= t.items().len(),
            objects == heap.objects@,
            before.len() <= objects.len(),
            before == old(reachable)@,
            list == function_list(t.items()),
            marks(objects, before, reachable@, upto(list, i as int)),
        decreases t.items().len() - i,
    {
        let ghost middle = reachable@;
        proof {
            lemma_items_decrease(*t, i as int);
        }
        mark_compiled_fn_refs(t.value_at(i), reachable, heap);
        proof {
            lemma_next_part(objects, before, middle, reachable@, list, i as int);
        }
        i += 1;
    }
    proof {
        assert forall|r: Rule| #[trigger] upto(list, t.items().len() as int)(r) == functions_part(*t)(r) by {
            if functions_part(*t)(r) {
                assert forall|k: int| 0 <= k < t.items().len() implies #[trigger] list(k)(r) by {}
            }
            if upto(list, t.items().len() as int)(r) {
                assert forall|k: int| 0 <= k < t.items().len() implies #[trigger] list(k)(r) by {}
                assert forall|k: int| 0 <= k < t.items().len() implies function_ok(
                    (#[trigger] t.items()[k]).1,
                    r,
                ) by {
                    assert(list(k)(r));
                }
            }
        }
        lemma_same_part(objects, before, reachable@, upto(list, t.items().len() as int), functions_part(*t));
    }
}

fn mark_fields(t: &NameMap<Object>, reachable: &mut Vec<bool>, heap: &Heap)
    requires
        old(reachable)@.len() <= heap.objects@.len(),
    ensures
        marks(heap.objects@, old(reachable)@, final(reachable)@, fields_part(*t)),
    decreases unmarked(old(reachable)@), 2int, *t, 0int,
{
    let ghost objects = heap.objects@;
    let ghost before = reachable@;
    let ghost list = field_list(t.items());
    proof {
        lemma_nothing(objects, before);
        lemma_same_part(objects, before, before, nothing(), upto(list, 0));
    }
    let mut i: usize = 0;
    while i < t.len()
        invariant
            0 <= i <= t.items().len(),
            objects == heap.objects@,
            before.len() <= objects.len(),
            before == old(reachable)@,
            list == field_list(t.items()),
            marks(objects, before, reachable@, upto(list, i as int)),
        decreases t.items().len() - i,
    {
        let ghost middle = reachable@;
        proof {
            lemma_items_decrease(*t, i as int);
        }
        mark_nested_object(t.value_at(i), reachable, heap);
        proof {
            lemma_next_part(objects, before, middle, reachable@, list, i as int);
        }
        i += 1;
    }
    proof {
        assert forall|r: Rule| #[trigger] upto(list, t.items().len() as int)(r) == fields_part(*t)(r) by {
            if fields_part(*t)(r) {
                assert forall|k: int| 0 <= k < t.items().len() implies #[trigger] list(k)(r) by {}
            }
            if upto(list, t.items().len() as int)(r) {
                assert forall|k: int| 0 <= k < t.items().len() implies #[trigger] list(k)(r) by {}
                assert forall|k: int| 0 <= k < t.items().len() implies nested_ok(
                    (#[trigger] t.items()[k]).1,
                    r,
                ) by {
                    assert(list(k)(r));
                }
            }
        }
        lemma_same_part(objects, before, reachable@, upto(list, t.items().len() as int), fields_part(*t));
    }
}

fn mark_levels(v: &Vec<SuperLevel>, reachable: &mut Vec<bool>, heap: &Heap)
    requires
        old(reachable)@.len() <= heap.objects@.len(),
    ensures
        marks(heap.objects@, old(reachable)@, final(reachable)@, levels_part(*v)),
    decreases unmarked(old(reachable)@), 2int, *v, 0int,
{
    let ghost objects = heap.objects@;
    let ghost before = reachable@;
    let ghost list = level_list(v@);
    proof {
        lemma_nothing(objects, before);
        lemma_same_part(objects, before, before, nothing(), upto(list, 0));
    }
    let mut i: usize = 0;
    while i < v.len()
        invariant
            0 <= i <= v@.len(),
            objects == heap.objects@,
            before.len() <= objects.len(),
            before == old(reachable)@,
            list == level_list(v@),
            marks(objects, before, reachable@, upto(list, i as int)),
        decreases v@.len() - i,
    {
        let ghost middle = reachable@;
        assert(decreases_to!(*v => v@[i as int]));
        mark_level(&v[i], reachable, heap);
        proof {
            lemma_next_part(objects, before, middle, reachable@, list, i as int);
        }
        i += 1;
    }
    proof {
        assert forall|r: Rule| #[trigger] upto(list, v@.len() as int)(r) == levels_part(*v)(r) by {
            if levels_part(*v)(r) {
                assert forall|k: int| 0 <= k < v@.len() implies #[trigger] list(k)(r) by {}
            }
            if upto(list, v@.len() as int)(r) {
                assert forall|k: int| 0 <= k < v@.len() implies #[trigger] list(k)(r) by {}
                assert forall|k: int| 0 <= k < v@.len() implies level_ok(#[trigger] v@[k], r) by {
                    assert(list(k)(r));
                }
            }
        }
        lemma_same_part(objects, before, reachable@, upto(list, v@.len() as int), levels_part(*v));
    }
}

fn mark_initializers(v: &Vec<FieldInitializer>, reachable: &mut Vec<bool>, heap: &Heap)
    requires
        old(reachable)@.len() <= heap.objects@.len(),
    ensures
        marks(heap.objects@, old(reachable)@, final(reachable)@, initializers_part(*v)),
    decreases unmarked(old(reachable)@), 2int, *v, 0int,
{
    let ghost objects = heap.objects@;
    let ghost before = reachable@;
    let ghost list = initializer_list(v@);
    proof {
        lemma_nothing(objects, before);
        lemma_same_part(objects, before, before, nothing(), upto(list, 0));
    }
    let mut i: usize = 0;
    while i < v.len()
        invariant
            0 <= i <= v@.len(),
            objects == heap.objects@,
            before.len() <= objects.len(),
            before == old(reachable)@,
            list == initializer_list(v@),
            marks(objects, before, reachable@, upto(list, i as int)),
        decreases v@.len() - i,
    {
        let ghost middle = reachable@;
        assert(decreases_to!(*v => v@[i as int]));
        mark_compiled_fn_refs(&v[i].thunk, reachable, heap);
        proof {
            lemma_next_part(objects, before, middle, reachable@, list, i as int);
        }
        i += 1;
    }
    proof {
        assert forall|r: Rule| #[trigger] upto(list, v@.len() as int)(r) == initializers_part(*v)(r) by {
            if initializers_part(*v)(r) {
                assert forall|k: int| 0 <= k < v@.len() implies #[trigger] list(k)(r) by {}
            }
            if upto(list, v@.len() as int)(r) {
                assert forall|k: int| 0 <= k < v@.len() implies #[trigger] list(k)(r) by {}
                assert forall|k: int| 0 <= k < v@.len() implies function_ok(
                    (#[trigger] v@[k]).thunk,
                    r,
                ) by {
                    assert(list(k)(r));
                }
            }
        }
        lemma_same_part(objects, before, reachable@, upto(list, v@.len() as int), initializers_part(*v));
    }
}

fn mark_statics(v: &Vec<StaticInitializer>, reachable: &mut Vec<bool>, heap: &Heap)
    requires
        old(reachable)@.len() <= heap.objects@.len(),
    ensures
        marks(heap.objects@, old(reachable)@, final(reachable)@, statics_part(*v)),
    decreases unmarked(old(reachable)@), 2int, *v, 0int,
{
    let ghost objects = heap.objects@;
    let ghost before = reachable@;
    let ghost list = static_list(v@);
    proof {
        lemma_nothing(objects, before);
        lemma_same_part(objects, before, before, nothing(), upto(list, 0));
    }
    let mut i: usize = 0;
    while i < v.len()
        invariant
            0 <= i <= v@.len(),
            objects == heap.objects@,
            before.len() <= objects.len(),
            before == old(reachable)@,
            list == static_list(v@),
            marks(objects, before, reachable@, upto(list, i as int)),
        decreases v@.len() - i,
    {
        let ghost middle = reachable@;
        assert(decreases_to!(*v => v@[i as int]));
        match &v[i] {
            StaticInitializer::Field { thunk, .. } => mark_compiled_fn_refs(
                thunk,
                reachable,
                heap,
            ),
            StaticInitializer::Block { thunk } => mark_compiled_fn_refs(thunk, reachable, heap),
        }
        proof {
            let thunk = match v@[i as int] {
                StaticInitializer::Field { thunk, .. } => thunk,
                StaticInitializer::Block { thunk } => thunk,
            };
            assert forall|r: Rule| #[trigger] function_part(thunk)(r) == list(i as int)(r) by {}
            lemma_same_part(
                objects,
                middle,
                reachable@,
                function_part(thunk),
                list(i as int),
            );
        }
        proof {
            lemma_next_part(objects, before, middle, reachable@, list, i as int);
        }
        i += 1;
    }
    proof {
        assert forall|r: Rule| #[trigger] upto(list, v@.len() as int)(r) == statics_part(*v)(r) by {
            if statics_part(*v)(r) {
                assert forall|k: int| 0 <= k < v@.len() implies #[trigger] list(k)(r) by {}
            }
            if upto(list, v@.len() as int)(r) {
                assert forall|k: int| 0 <= k < v@.len() implies #[trigger] list(k)(r) by {}
                assert forall|k: int| 0 <= k < v@.len() implies static_ok(#[trigger] v@[k], r) by {
                    assert(list(k)(r));
                }
            }
        }
        lemma_same_part(objects, before, reachable@, upto(list, v@.len() as int), statics_part(*v));
    }
}

fn mark_captured(f: &CompiledFunctionObject, reachable: &mut Vec<bool>, heap: &Heap)
    requires
        old(reachable)@.len() <= heap.objects@.len(),
    ensures
        marks(heap.objects@, old(reachable)@, final(reachable)@, captured_part(*f)),
    decreases unmarked(old(reachable)@), 2int, *f, 0int,
{
    let ghost objects = heap.objects@;
    let ghost before = reachable@;
    let ghost list = captured_list(f.captured_values@);
    proof {
        lemma_nothing(objects, before);
        lemma_same_part(objects, before, before, nothing(), upto(list, 0));
    }
    let mut i: usize = 0;
    while i < f.captured_values.len()
        invariant
            0 <= i <= f.captured_values@.len(),
            objects == heap.objects@,
            before.len() <= objects.len(),
            before == old(reachable)@,
            list == captured_list(f.captured_values@),
            marks(objects, before, reachable@, upto(list, i as int)),
        decreases f.captured_values@.len() - i,
    {
        let ghost middle = reachable@;
        mark_value(&f.captured_values[i].value, reachable, heap);
        proof {
            lemma_next_part(objects, before, middle, reachable@, list, i as int);
        }
        i += 1;
    }
    proof {
        assert forall|r: Rule| #[trigger] upto(list, f.captured_values@.len() as int)(r) == captured_part(*f)(r) by {
            if captured_part(*f)(r) {
                assert forall|k: int| 0 <= k < f.captured_values@.len() implies #[trigger] list(k)(r) by {}
            }
            if upto(list, f.captured_values@.len() as int)(r) {
                assert forall|k: int| 0 <= k < f.captured_values@.len() implies #[trigger] list(k)(r) by {}
                assert forall|k: int| 0 <= k < f.captured_values@.len() implies value_ok(
                    (#[trigger] f.captured_values@[k]).value,
                    r,
                ) by {
                    assert(list(k)(r));
                }
            }
        }
        lemma_same_part(objects, before, reachable@, upto(list, f.captured_values@.len() as int), captured_part(*f));
    }
}

fn mark_pairs(h: &HashObject, reachable: &mut Vec<bool>, heap: &Heap)
    requires
        old(reachable)@.len() <= heap.objects@.len(),
    ensures
        marks(heap.objects@, old(reachable)@, final(reachable)@, pairs_part(*h)),
    decreases unmarked(old(reachable)@), 2int, *h, 0int,
{
    let ghost objects = heap.objects@;
    let ghost before = reachable@;
    let ghost list = entry_list(pair_map_entries(h.pairs));
    proof {
        lemma_nothing(objects, before);
        lemma_same_part(objects, before, before, nothing(), upto(list, 0));
    }
    let mut i: usize = 0;
    while i < h.pairs.len()
        invariant
            0 <= i <= pair_map_entries(h.pairs).len(),
            objects == heap.objects@,
            before.len() <= objects.len(),
            before == old(reachable)@,
            list == entry_list(pair_map_entries(h.pairs)),
            marks(objects, before, reachable@, upto(list, i as int)),
        decreases pair_map_entries(h.pairs).len() - i,
    {
        let ghost middle = reachable@;
        mark_value(&h.pairs.entry_at(i).1, reachable, heap);
        proof {
            lemma_next_part(objects, before, middle, reachable@, list, i as int);
        }
        i += 1;
    }
    proof {
        assert forall|r: Rule| #[trigger] upto(list, pair_map_entries(h.pairs).len() as int)(r) == pairs_part(*h)(r) by {
            if pairs_part(*h)(r) {
                assert forall|k: int| 0 <= k < pair_map_entries(h.pairs).len() implies #[trigger] list(k)(r) by {}
            }
            if upto(list, pair_map_entries(h.pairs).len() as int)(r) {
                assert forall|k: int| 0 <= k < pair_map_entries(h.pairs).len() implies #[trigger] list(k)(r) by {}
                assert forall|k: int| 0 <= k < pair_map_entries(h.pairs).len() implies value_ok(
                    (#[trigger] pair_map_entries(h.pairs)[k]).1,
                    r,
                ) by {
                    assert(list(k)(r));
                }
            }
        }
        lemma_same_part(objects, before, reachable@, upto(list, pair_map_entries(h.pairs).len() as int), pairs_part(*h));
    }
}

fn mark_entries(v: &Vec<(HashKey, Value)>, reachable: &mut Vec<bool>, heap: &Heap)
    requires
        old(reachable)@.len() <= heap.objects@.len(),
    ensures
        marks(heap.objects@, old(reachable)@, final(reachable)@, entries_part(v@)),
    decreases unmarked(old(reachable)@), 1int, *v, 0int,
{
    let ghost objects = heap.objects@;
    let ghost before = reachable@;
    let ghost list = entry_list(v@);
    proof {
        lemma_nothing(objects, before);
        lemma_same_part(objects, before, before, nothing(), upto(list, 0));
    }
    let mut i: usize = 0;
    while i < v.len()
        invariant
            0 <= i <= v@.len(),
            objects == heap.objects@,
            before.len() <= objects.len(),
            before == old(reachable)@,
            list == entry_list(v@),
            marks(objects, before, reachable@, upto(list, i as int)),
        decreases v@.len() - i,
    {
        let ghost middle = reachable@;
        mark_value(&v[i].1, reachable, heap);
        proof {
            lemma_next_part(objects, before, middle, reachable@, list, i as int);
        }
        i += 1;
    }
    proof {
        assert forall|r: Rule| #[trigger] upto(list, v@.len() as int)(r) == entries_part(v@)(r) by {
            if entries_part(v@)(r) {
                assert forall|k: int| 0 <= k < v@.len() implies #[trigger] list(k)(r) by {}
            }
            if upto(list, v@.len() as int)(r) {
                assert forall|k: int| 0 <= k < v@.len() implies #[trigger] list(k)(r) by {}
                assert forall|k: int| 0 <= k < v@.len() implies value_ok(
                    (#[trigger] v@[k]).1,
                    r,
                ) by {
                    assert(list(k)(r));
                }
            }
        }
        lemma_same_part(objects, before, reachable@, upto(list, v@.len() as int), entries_part(v@));
    }
}

/// Mark what a function refers to: the values it has captured, and its constants.
pub fn mark_compiled_fn_refs(func: &CompiledFunctionObject, reachable: &mut Vec<bool>, heap: &Heap)
    requires
        old(reachable)@.len() <= heap.objects@.len(),
    ensures
        marks(heap.objects@, old(reachable)@, final(reachable)@, function_part(*func)),
    decreases unmarked(old(reachable)@), 2int, *func, 1int,
{
    let ghost objects = heap.objects@;
    let ghost m0 = reachable@;
    mark_captured(func, reachable, heap);
    let ghost m1 = reachable@;
    let ghost p1 = captured_part(*func);
    let constants: &Vec<Object> = &func.constants;
    mark_objects(constants, reachable, heap);
    let ghost m2 = reachable@;
    let ghost p2 = both(p1, objects_part(*constants));
    proof {
        lemma_then(objects, m0, m1, m2, p1, objects_part(*constants));
    }
    proof {
        assert forall|r: Rule| #[trigger] p2(r) == function_part(*func)(r) by {}
        lemma_same_part(objects, m0, reachable@, p2, function_part(*func));
    }
}

fn mark_level(l: &SuperLevel, reachable: &mut Vec<bool>, heap: &Heap)
    requires
        old(reachable)@.len() <= heap.objects@.len(),
    ensures
        marks(heap.objects@, old(reachable)@, final(reachable)@, level_part(*l)),
    decreases unmarked(old(reachable)@), 2int, *l, 0int,
{
    let ghost objects = heap.objects@;
    let ghost m0 = reachable@;
    mark_functions(&l.methods, reachable, heap);
    let ghost m1 = reachable@;
    let ghost p1 = functions_part(l.methods);
    mark_functions(&l.getters, reachable, heap);
    let ghost m2 = reachable@;
    let ghost p2 = both(p1, functions_part(l.getters));
    proof {
        lemma_then(objects, m0, m1, m2, p1, functions_part(l.getters));
    }
    mark_functions(&l.setters, reachable, heap);
    let ghost m3 = reachable@;
    let ghost p3 = both(p2, functions_part(l.setters));
    proof {
        lemma_then(objects, m0, m2, m3, p2, functions_part(l.setters));
    }
    proof {
        assert forall|r: Rule| #[trigger] p3(r) == level_part(*l)(r) by {}
        lemma_same_part(objects, m0, reachable@, p3, level_part(*l));
    }
}

/// Mark what the accessors of a hash refer to.
fn mark_accessors(t: &Option<Box<FunctionTable>>, reachable: &mut Vec<bool>, heap: &Heap)
    requires
        old(reachable)@.len() <= heap.objects@.len(),
    ensures
        marks(heap.objects@, old(reachable)@, final(reachable)@, accessors_part(*t)),
    decreases unmarked(old(reachable)@), 2int, *t, 0int,
{
    let ghost objects = heap.objects@;
    let ghost before = reachable@;
    match t {
        Some(table) => {
            mark_functions(table, reachable, heap);
            proof {
                assert forall|r: Rule| #[trigger] functions_part(**table)(r) == accessors_part(*t)(
                    r,
                ) by {}
                lemma_same_part(
                    objects,
                    before,
                    reachable@,
                    functions_part(**table),
                    accessors_part(*t),
                );
            }
        },
        None => {
            proof {
                lemma_nothing(objects, before);
                lemma_same_part(objects, before, before, nothing(), accessors_part(*t));
            }
        },
    }
}

fn mark_maybe_function(f: &Option<CompiledFunctionObject>, reachable: &mut Vec<bool>, heap: &Heap)
    requires
        old(reachable)@.len() <= heap.objects@.len(),
    ensures
        marks(heap.objects@, old(reachable)@, final(reachable)@, maybe_function_part(*f)),
    decreases unmarked(old(reachable)@), 2int, *f, 0int,
{
    let ghost objects = heap.objects@;
    let ghost before = reachable@;
    match f {
        Some(func) => {
            mark_compiled_fn_refs(func, reachable, heap);
            proof {
                assert forall|r: Rule| #[trigger] function_part(*func)(r) == maybe_function_part(
                    *f,
                )(r) by {}
                lemma_same_part(
                    objects,
                    before,
                    reachable@,
                    function_part(*func),
                    maybe_function_part(*f),
                );
            }
        },
        None => {
            proof {
                lemma_nothing(objects, before);
                lemma_same_part(objects, before, before, nothing(), maybe_function_part(*f));
            }
        },
    }
}

pub(crate) fn mark_maybe_value(v: &Option<Value>, reachable: &mut Vec<bool>, heap: &Heap)
    requires
        old(reachable)@.len() <= heap.objects@.len(),
    ensures
        marks(heap.objects@, old(reachable)@, final(reachable)@, maybe_value_part(*v)),
    decreases unmarked(old(reachable)@), 1int, *v, 0int,
{
    let ghost objects = heap.objects@;
    let ghost before = reachable@;
    match v {
        Some(value) => {
            mark_value(value, reachable, heap);
            proof {
                assert forall|r: Rule| #[trigger] value_part(*value)(r) == maybe_value_part(*v)(
                    r,
                ) by {}
                lemma_same_part(
                    objects,
                    before,
                    reachable@,
                    value_part(*value),
                    maybe_value_part(*v),
                );
            }
        },
        None => {
            proof {
                lemma_nothing(objects, before);
                lemma_same_part(objects, before, before, nothing(), maybe_value_part(*v));
            }
        },
    }
}

fn mark_hash(h: &HashObject, reachable: &mut Vec<bool>, heap: &Heap)
    requires
        old(reachable)@.len() <= heap.objects@.len(),
    ensures
        marks(heap.objects@, old(reachable)@, final(reachable)@, hash_part(*h)),
    decreases unmarked(old(reachable)@), 2int, *h, 1int,
{
    let ghost objects = heap.objects@;
    let ghost m0 = reachable@;
    mark_pairs(h, reachable, heap);
    let ghost m1 = reachable@;
    let ghost p1 = pairs_part(*h);
    mark_values(&h.values, reachable, heap);
    let ghost m2 = reachable@;
    let ghost p2 = both(p1, values_part(h.values@));
    proof {
        lemma_then(objects, m0, m1, m2, p1, values_part(h.values@));
    }
    mark_objects(&h.local_objects, reachable, heap);
    let ghost m3 = reachable@;
    let ghost p3 = both(p2, objects_part(h.local_objects));
    proof {
        lemma_then(objects, m0, m2, m3, p2, objects_part(h.local_objects));
    }
    mark_accessors(&h.getters, reachable, heap);
    let ghost m4 = reachable@;
    let ghost p4 = both(p3, accessors_part(h.getters));
    proof {
        lemma_then(objects, m0, m3, m4, p3, accessors_part(h.getters));
    }
    mark_accessors(&h.setters, reachable, heap);
    let ghost m5 = reachable@;
    let ghost p5 = both(p4, accessors_part(h.setters));
    proof {
        lemma_then(objects, m0, m4, m5, p4, accessors_part(h.setters));
    }
    proof {
        assert forall|r: Rule| #[trigger] p5(r) == hash_part(*h)(r) by {}
        lemma_same_part(objects, m0, reachable@, p5, hash_part(*h));
    }
}

fn mark_generator(g: &GeneratorObject, reachable: &mut Vec<bool>, heap: &Heap)
    requires
        old(reachable)@.len() <= heap.objects@.len(),
    ensures
        marks(heap.objects@, old(reachable)@, final(reachable)@, generator_part(*g)),
    decreases unmarked(old(reachable)@), 2int, *g, 0int,
{
    let ghost objects = heap.objects@;
    let ghost m0 = reachable@;
    mark_objects(&g.locals, reachable, heap);
    let ghost m1 = reachable@;
    let ghost p1 = objects_part(g.locals);
    mark_values(&g.args, reachable, heap);
    let ghost m2 = reachable@;
    let ghost p2 = both(p1, values_part(g.args@));
    proof {
        lemma_then(objects, m0, m1, m2, p1, values_part(g.args@));
    }
    mark_maybe_value(&g.receiver, reachable, heap);
    let ghost m3 = reachable@;
    let ghost p3 = both(p2, maybe_value_part(g.receiver));
    proof {
        lemma_then(objects, m0, m2, m3, p2, maybe_value_part(g.receiver));
    }
    mark_compiled_fn_refs(&g.function, reachable, heap);
    let ghost m4 = reachable@;
    let ghost p4 = both(p3, function_part(g.function));
    proof {
        lemma_then(objects, m0, m3, m4, p3, function_part(g.function));
    }
    proof {
        assert forall|r: Rule| #[trigger] p4(r) == generator_part(*g)(r) by {}
        lemma_same_part(objects, m0, reachable@, p4, generator_part(*g));
    }
}

fn mark_class(c: &ClassObject, reachable: &mut Vec<bool>, heap: &Heap)
    requires
        old(reachable)@.len() <= heap.objects@.len(),
    ensures
        marks(heap.objects@, old(reachable)@, final(reachable)@, class_part(*c)),
    decreases unmarked(old(reachable)@), 2int, *c, 0int,
{
    let ghost objects = heap.objects@;
    let ghost m0 = reachable@;
    mark_maybe_function(&c.constructor, reachable, heap);
    let ghost m1 = reachable@;
    let ghost p1 = maybe_function_part(c.constructor);
    mark_functions(&c.methods, reachable, heap);
    let ghost m2 = reachable@;
    let ghost p2 = both(p1, functions_part(c.methods));
    proof {
        lemma_then(objects, m0, m1, m2, p1, functions_part(c.methods));
    }
    mark_functions(&c.static_methods, reachable, heap);
    let ghost m3 = reachable@;
    let ghost p3 = both(p2, functions_part(c.static_methods));
    proof {
        lemma_then(objects, m0, m2, m3, p2, functions_part(c.static_methods));
    }
    mark_functions(&c.getters, reachable, heap);
    let ghost m4 = reachable@;
    let ghost p4 = both(p3, functions_part(c.getters));
    proof {
        lemma_then(objects, m0, m3, m4, p3, functions_part(c.getters));
    }
    mark_functions(&c.setters, reachable, heap);
    let ghost m5 = reachable@;
    let ghost p5 = both(p4, functions_part(c.setters));
    proof {
        lemma_then(objects, m0, m4, m5, p4, functions_part(c.setters));
    }
    mark_functions(&c.super_methods, reachable, heap);
    let ghost m6 = reachable@;
    let ghost p6 = both(p5, functions_part(c.super_methods));
    proof {
        lemma_then(objects, m0, m5, m6, p5, functions_part(c.super_methods));
    }
    mark_functions(&c.super_getters, reachable, heap);
    let ghost m7 = reachable@;
    let ghost p7 = both(p6, functions_part(c.super_getters));
    proof {
        lemma_then(objects, m0, m6, m7, p6, functions_part(c.super_getters));
    }
    mark_functions(&c.super_setters, reachable, heap);
    let ghost m8 = reachable@;
    let ghost p8 = both(p7, functions_part(c.super_setters));
    proof {
        lemma_then(objects, m0, m7, m8, p7, functions_part(c.super_setters));
    }
    mark_levels(&c.super_constructor_chain, reachable, heap);
    let ghost m9 = reachable@;
    let ghost p9 = both(p8, levels_part(c.super_constructor_chain));
    proof {
        lemma_then(objects, m0, m8, m9, p8, levels_part(c.super_constructor_chain));
    }
    mark_initializers(&c.field_initializers, reachable, heap);
    let ghost m10 = reachable@;
    let ghost p10 = both(p9, initializers_part(c.field_initializers));
    proof {
        lemma_then(objects, m0, m9, m10, p9, initializers_part(c.field_initializers));
    }
    mark_statics(&c.static_initializers, reachable, heap);
    let ghost m11 = reachable@;
    let ghost p11 = both(p10, statics_part(c.static_initializers));
    proof {
        lemma_then(objects, m0, m10, m11, p10, statics_part(c.static_initializers));
    }
    mark_fields(&c.static_fields, reachable, heap);
    let ghost m12 = reachable@;
    let ghost p12 = both(p11, fields_part(c.static_fields));
    proof {
        lemma_then(objects, m0, m11, m12, p11, fields_part(c.static_fields));
    }
    proof {
        assert forall|r: Rule| #[trigger] p12(r) == class_part(*c)(r) by {}
        lemma_same_part(objects, m0, reachable@, p12, class_part(*c));
    }
}

fn mark_instance(inst: &InstanceObject, reachable: &mut Vec<bool>, heap: &Heap)
    requires
        old(reachable)@.len() <= heap.objects@.len(),
    ensures
        marks(heap.objects@, old(reachable)@, final(reachable)@, instance_part(*inst)),
    decreases unmarked(old(reachable)@), 2int, *inst, 0int,
{
    let ghost objects = heap.objects@;
    let ghost m0 = reachable@;
    mark_fields(&inst.fields, reachable, heap);
    let ghost m1 = reachable@;
    let ghost p1 = fields_part(inst.fields);
    mark_functions(&inst.methods, reachable, heap);
    let ghost m2 = reachable@;
    let ghost p2 = both(p1, functions_part(inst.methods));
    proof {
        lemma_then(objects, m0, m1, m2, p1, functions_part(inst.methods));
    }
    mark_functions(&inst.getters, reachable, heap);
    let ghost m3 = reachable@;
    let ghost p3 = both(p2, functions_part(inst.getters));
    proof {
        lemma_then(objects, m0, m2, m3, p2, functions_part(inst.getters));
    }
    mark_functions(&inst.setters, reachable, heap);
    let ghost m4 = reachable@;
    let ghost p4 = both(p3, functions_part(inst.setters));
    proof {
        lemma_then(objects, m0, m3, m4, p3, functions_part(inst.setters));
    }
    mark_functions(&inst.super_methods, reachable, heap);
    let ghost m5 = reachable@;
    let ghost p5 = both(p4, functions_part(inst.super_methods));
    proof {
        lemma_then(objects, m0, m4, m5, p4, functions_part(inst.super_methods));
    }
    mark_functions(&inst.super_getters, reachable, heap);
    let ghost m6 = reachable@;
    let ghost p6 = both(p5, functions_part(inst.super_getters));
    proof {
        lemma_then(objects, m0, m5, m6, p5, functions_part(inst.super_getters));
    }
    mark_functions(&inst.super_setters, reachable, heap);
    let ghost m7 = reachable@;
    let ghost p7 = both(p6, functions_part(inst.super_setters));
    proof {
        lemma_then(objects, m0, m6, m7, p6, functions_part(inst.super_setters));
    }
    mark_levels(&inst.super_constructor_chain, reachable, heap);
    let ghost m8 = reachable@;
    let ghost p8 = both(p7, levels_part(inst.super_constructor_chain));
    proof {
        lemma_then(objects, m0, m7, m8, p7, levels_part(inst.super_constructor_chain));
    }
    proof {
        assert forall|r: Rule| #[trigger] p8(r) == instance_part(*inst)(r) by {}
        lemma_same_part(objects, m0, reachable@, p8, instance_part(*inst));
    }
}

fn mark_super_ref(s: &SuperRefObject, reachable: &mut Vec<bool>, heap: &Heap)
    requires
        old(reachable)@.len() <= heap.objects@.len(),
    ensures
        marks(heap.objects@, old(reachable)@, final(reachable)@, super_ref_part(*s)),
    decreases unmarked(old(reachable)@), 2int, *s, 0int,
{
    let ghost objects = heap.objects@;
    let ghost m0 = reachable@;
    mark_nested_object(&s.receiver, reachable, heap);
    let ghost m1 = reachable@;
    let ghost p1 = nested_part(*s.receiver);
    mark_functions(&s.methods, reachable, heap);
    let ghost m2 = reachable@;
    let ghost p2 = both(p1, functions_part(s.methods));
    proof {
        lemma_then(objects, m0, m1, m2, p1, functions_part(s.methods));
    }
    mark_functions(&s.getters, reachable, heap);
    let ghost m3 = reachable@;
    let ghost p3 = both(p2, functions_part(s.getters));
    proof {
        lemma_then(objects, m0, m2, m3, p2, functions_part(s.getters));
    }
    mark_functions(&s.setters, reachable, heap);
    let ghost m4 = reachable@;
    let ghost p4 = both(p3, functions_part(s.setters));
    proof {
        lemma_then(objects, m0, m3, m4, p3, functions_part(s.setters));
    }
    mark_levels(&s.constructor_chain, reachable, heap);
    let ghost m5 = reachable@;
    let ghost p5 = both(p4, levels_part(s.constructor_chain));
    proof {
        lemma_then(objects, m0, m4, m5, p4, levels_part(s.constructor_chain));
    }
    proof {
        assert forall|r: Rule| #[trigger] p5(r) == super_ref_part(*s)(r) by {}
        lemma_same_part(objects, m0, reachable@, p5, super_ref_part(*s));
    }
}

/// Mark what an object refers to.
pub fn mark_object_refs(obj: &Object, reachable: &mut Vec<bool>, heap: &Heap)
    requires
        old(reachable)@.len() <= heap.objects@.len(),
    ensures
        marks(heap.objects@, old(reachable)@, final(reachable)@, object_part(*obj)),
    decreases unmarked(old(reachable)@), 2int, *obj, 0int,
{
    let ghost objects = heap.objects@;
    let ghost before = reachable@;
    let ghost part = object_part(*obj);
    let ghost mut done = nothing();
    proof {
        lemma_nothing(objects, before);
    }
    match obj {
        Object::Hash(h) => {
            let hash = &h.value;
            mark_hash(hash, reachable, heap);
            proof {
                done = hash_part(*hash);
            }
        },
        Object::Array(items) => {
            mark_values(&items.value, reachable, heap);
            proof {
                done = values_part(items.value@);
            }
        },
        Object::CompiledFunction(f) => {
            mark_compiled_fn_refs(f, reachable, heap);
            proof {
                done = function_part(**f);
            }
        },
        Object::JsMap(m) => {
            mark_entries(&m.entries.value, reachable, heap);
            proof {
                done = entries_part(m.entries.value@);
            }
        },
        Object::Generator(g) => {
            let generator = &g.value;
            mark_generator(generator, reachable, heap);
            proof {
                done = generator_part(*generator);
            }
        },
        Object::Class(c) => {
            mark_class(c, reachable, heap);
            proof {
                done = class_part(**c);
            }
        },
        Object::Instance(i) => {
            mark_instance(i, reachable, heap);
            proof {
                done = instance_part(**i);
            }
        },
        Object::BoundMethod(m) => {
            mark_compiled_fn_refs(&m.function, reachable, heap);
            let ghost middle = reachable@;
            mark_nested_object(&m.receiver, reachable, heap);
            proof {
                lemma_then(
                    objects,
                    before,
                    middle,
                    reachable@,
                    function_part(m.function),
                    nested_part(*m.receiver),
                );
                done = both(function_part(m.function), nested_part(*m.receiver));
            }
        },
        Object::SuperRef(s) => {
            mark_super_ref(s, reachable, heap);
            proof {
                done = super_ref_part(**s);
            }
        },
        Object::BuiltinFunction(b) => {
            if let Some(receiver) = &b.receiver {
                mark_nested_object(receiver, reachable, heap);
                proof {
                    done = nested_part(*receiver);
                }
            }
        },
        Object::ReturnValue(v) => {
            mark_nested_object(v, reachable, heap);
            proof {
                done = nested_part(**v);
            }
        },
        Object::Promise(p) => match &p.settled {
            PromiseState::Fulfilled(v) => {
                mark_nested_object(v, reachable, heap);
                proof {
                    done = nested_part(**v);
                }
            },
            PromiseState::Rejected(v) => {
                mark_nested_object(v, reachable, heap);
                proof {
                    done = nested_part(**v);
                }
            },
        },
        _ => {},
    }
    proof {
        assert forall|r: Rule| #[trigger] done(r) == part(r) by {}
        lemma_same_part(objects, before, reachable@, done, part);
    }
}

/// Mark an object that is not an object of the heap itself, such as a field's
/// value or a constant. If it is a cell that the heap holds too, that object of
/// the heap is marked. What it refers to is marked in any case.
pub fn mark_nested_object(obj: &Object, reachable: &mut Vec<bool>, heap: &Heap)
    requires
        old(reachable)@.len() <= heap.objects@.len(),
    ensures
        marks(heap.objects@, old(reachable)@, final(reachable)@, nested_part(*obj)),
        own_place_marked(heap.objects@, final(reachable)@, *obj),
    decreases unmarked(old(reachable)@), 2int, *obj, 2int,
{
    let position = heap.cell_position(obj);
    mark_nested_at(obj, position, reachable, heap);
}

/// Mark an object that is not an object of the heap itself, of which it is known
/// whether it is a cell that the heap holds too, and where: the object at that
/// place is marked.
pub fn mark_nested_at(
    obj: &Object,
    position: Option<usize>,
    reachable: &mut Vec<bool>,
    heap: &Heap,
)
    requires
        old(reachable)@.len() <= heap.objects@.len(),
        exists|same: Seq<bool>| #[trigger]
            are_comparisons(heap.objects@, *obj, same) && position == first_true(same, 0),
        position matches Some(i) ==> i < heap.objects@.len() && is_cell(*obj)
            && heap.objects@[i as int] == *obj,
    ensures
        marks(heap.objects@, old(reachable)@, final(reachable)@, nested_part(*obj)),
        position matches Some(i) ==> is_marked(final(reachable)@, i as int),
        own_place_marked(heap.objects@, final(reachable)@, *obj),
    decreases unmarked(old(reachable)@), 2int, *obj, 1int,
{
    let ghost objects = heap.objects@;
    let ghost before = reachable@;
    let ghost part = nested_part(*obj);
    match position {
        Some(i) => {
            proof {
                assert forall|m: Seq<bool>| #[trigger]
                    grown(before, m) && is_marked(m, i as int) implies part(
                    cover_rule(objects, m),
                ) by {
                    assert(objects[i as int] == *obj);
                }
                assert forall|c: Set<int>| #[trigger] part(within_rule(objects, c)) implies c.contains(
                    i as int,
                ) by {
                    assert(objects[i as int] == *obj);
                }
            }
            if i < reachable.len() && !reachable[i] {
                proof {
                    lemma_one_more_mark(before, i as int);
                }
                reachable[i] = true;
                mark_object_refs(&heap.objects[i], reachable, heap);
                proof {
                    lemma_mark_at(objects, before, reachable@, i as int, part);
                }
            } else {
                proof {
                    lemma_nothing(objects, before);
                }
            }
        },
        None => {
            mark_object_refs(obj, reachable, heap);
            proof {
                assert forall|m: Seq<bool>| #[trigger] grown(reachable@, m) implies part(
                    cover_rule(objects, m),
                ) && new_ones_covered(objects, before, reachable@, m) by {
                    assert(object_part(*obj)(cover_rule(objects, m)));
                }
                assert forall|c: Set<int>| #[trigger]
                    is_closed(objects, c) && part(within_rule(objects, c)) implies new_ones_within(
                    before,
                    reachable@,
                    c,
                ) by {
                    assert(object_part(*obj)(within_rule(objects, c)));
                }
            }
        },
    }
}

// What is marked in the end

/// Everything referred to is marked, all the way down, and of a nested cell that
/// is an object of the heap itself that object is.
pub open spec fn safe_rule(objects: Seq<Object>, m: Seq<bool>) -> Rule {
    Rule {
        slot: |i: u32| is_marked(m, i as int),
        need: |o: Object| own_place_marked(objects, m, o),
        stop: |o: Object| false,
    }
}

/// Whether there are marks for all objects, and each marked object has been
/// followed.
pub open spec fn is_settled(objects: Seq<Object>, m: Seq<bool>) -> bool {
    &&& objects.len() <= m.len()
    &&& forall|k: int|
        0 <= k < objects.len() && m[k] ==> object_ok(
            #[trigger] objects[k],
            cover_rule(objects, m),
        )
}

proof fn lemma_nested_safe(o: &Object, objects: Seq<Object>, m: Seq<bool>)
    requires
        is_settled(objects, m),
        nested_ok(*o, cover_rule(objects, m)),
    ensures
        nested_ok(*o, safe_rule(objects, m)),
    decreases *o, 1int,
{
    if (cover_rule(objects, m).stop)(*o) {
        let k = choose|k: int|
            0 <= k < objects.len() && is_marked(m, k) && #[trigger] objects[k] == *o;
        assert(object_ok(objects[k], cover_rule(objects, m)));
    }
    lemma_object_safe(o, objects, m);
}

proof fn lemma_object_safe(o: &Object, objects: Seq<Object>, m: Seq<bool>)
    requires
        is_settled(objects, m),
        object_ok(*o, cover_rule(objects, m)),
    ensures
        object_ok(*o, safe_rule(objects, m)),
    decreases *o, 0int,
{
    match o {
        Object::Hash(h) => lemma_hash_safe(&h.value, objects, m),
        Object::CompiledFunction(f) => lemma_function_safe(&**f, objects, m),
        Object::Generator(g) => lemma_generator_safe(&g.value, objects, m),
        Object::Class(c) => lemma_class_safe(&**c, objects, m),
        Object::Instance(i) => lemma_instance_safe(&**i, objects, m),
        Object::BoundMethod(b) => {
            lemma_function_safe(&b.function, objects, m);
            lemma_nested_safe(&*b.receiver, objects, m);
        },
        Object::SuperRef(s) => lemma_super_ref_safe(&**s, objects, m),
        Object::BuiltinFunction(b) => {
            if let Some(receiver) = &b.receiver {
                lemma_nested_safe(receiver, objects, m);
            }
        },
        Object::ReturnValue(v) => lemma_nested_safe(&**v, objects, m),
        Object::Promise(p) => match &p.settled {
            PromiseState::Fulfilled(v) => lemma_nested_safe(&**v, objects, m),
            PromiseState::Rejected(v) => lemma_nested_safe(&**v, objects, m),
        },
        Object::Array(items) => {
            assert forall|i: int| 0 <= i < items.value@.len() implies value_ok(
                #[trigger] items.value@[i],
                safe_rule(objects, m),
            ) by {
                assert(value_ok(items.value@[i], cover_rule(objects, m)));
            }
        },
        Object::JsMap(map) => {
            assert forall|i: int| 0 <= i < map.entries.value@.len() implies value_ok(
                (#[trigger] map.entries.value@[i]).1,
                safe_rule(objects, m),
            ) by {
                assert(value_ok(map.entries.value@[i].1, cover_rule(objects, m)));
            }
        },
        _ => {},
    }
}

pub(crate) proof fn lemma_objects_safe(v: &Vec<Object>, objects: Seq<Object>, m: Seq<bool>)
    requires
        is_settled(objects, m),
        objects_ok(*v, cover_rule(objects, m)),
    ensures
        objects_ok(*v, safe_rule(objects, m)),
    decreases *v, 0int,
{
    assert forall|i: int| 0 <= i < v@.len() implies nested_ok(#[trigger] v@[i], safe_rule(objects, m)) by {
        lemma_nested_safe(&v@[i], objects, m);
    }
}

proof fn lemma_function_safe(f: &CompiledFunctionObject, objects: Seq<Object>, m: Seq<bool>)
    requires
        is_settled(objects, m),
        function_ok(*f, cover_rule(objects, m)),
    ensures
        function_ok(*f, safe_rule(objects, m)),
    decreases *f, 0int,
{
    assert forall|i: int| 0 <= i < f.captured_values@.len() implies value_ok(
        (#[trigger] f.captured_values@[i]).value,
        safe_rule(objects, m),
    ) by {
        assert(value_ok(f.captured_values@[i].value, cover_rule(objects, m)));
    }
    lemma_objects_safe(&*f.constants, objects, m);
}

proof fn lemma_functions_safe(t: &FunctionTable, objects: Seq<Object>, m: Seq<bool>)
    requires
        is_settled(objects, m),
        functions_ok(*t, cover_rule(objects, m)),
    ensures
        functions_ok(*t, safe_rule(objects, m)),
    decreases *t, 0int,
{
    assert forall|i: int| 0 <= i < t.items().len() implies function_ok(
        (#[trigger] t.items()[i]).1,
        safe_rule(objects, m),
    ) by {
        lemma_items_decrease(*t, i);
        lemma_function_safe(&t.items()[i].1, objects, m);
    }
}

proof fn lemma_fields_safe(t: &NameMap<Object>, objects: Seq<Object>, m: Seq<bool>)
    requires
        is_settled(objects, m),
        fields_ok(*t, cover_rule(objects, m)),
    ensures
        fields_ok(*t, safe_rule(objects, m)),
    decreases *t, 0int,
{
    assert forall|i: int| 0 <= i < t.items().len() implies nested_ok(
        (#[trigger] t.items()[i]).1,
        safe_rule(objects, m),
    ) by {
        lemma_items_decrease(*t, i);
        lemma_nested_safe(&t.items()[i].1, objects, m);
    }
}

proof fn lemma_accessors_safe(t: &Option<Box<FunctionTable>>, objects: Seq<Object>, m: Seq<bool>)
    requires
        is_settled(objects, m),
        accessors_ok(*t, cover_rule(objects, m)),
    ensures
        accessors_ok(*t, safe_rule(objects, m)),
    decreases *t, 0int,
{
    if let Some(table) = t {
        lemma_functions_safe(&**table, objects, m);
    }
}

proof fn lemma_level_safe(l: &SuperLevel, objects: Seq<Object>, m: Seq<bool>)
    requires
        is_settled(objects, m),
        level_ok(*l, cover_rule(objects, m)),
    ensures
        level_ok(*l, safe_rule(objects, m)),
    decreases *l, 0int,
{
    lemma_functions_safe(&l.methods, objects, m);
    lemma_functions_safe(&l.getters, objects, m);
    lemma_functions_safe(&l.setters, objects, m);
}

proof fn lemma_levels_safe(v: &Vec<SuperLevel>, objects: Seq<Object>, m: Seq<bool>)
    requires
        is_settled(objects, m),
        levels_ok(*v, cover_rule(objects, m)),
    ensures
        levels_ok(*v, safe_rule(objects, m)),
    decreases *v, 0int,
{
    assert forall|i: int| 0 <= i < v@.len() implies level_ok(#[trigger] v@[i], safe_rule(objects, m)) by {
        lemma_level_safe(&v@[i], objects, m);
    }
}

proof fn lemma_initializers_safe(v: &Vec<FieldInitializer>, objects: Seq<Object>, m: Seq<bool>)
    requires
        is_settled(objects, m),
        initializers_ok(*v, cover_rule(objects, m)),
    ensures
        initializers_ok(*v, safe_rule(objects, m)),
    decreases *v, 0int,
{
    assert forall|i: int| 0 <= i < v@.len() implies function_ok((#[trigger] v@[i]).thunk, safe_rule(objects, m)) by {
        lemma_function_safe(&v@[i].thunk, objects, m);
    }
}

proof fn lemma_static_safe(s: &StaticInitializer, objects: Seq<Object>, m: Seq<bool>)
    requires
        is_settled(objects, m),
        static_ok(*s, cover_rule(objects, m)),
    ensures
        static_ok(*s, safe_rule(objects, m)),
    decreases *s, 0int,
{
    match s {
        StaticInitializer::Field { thunk, .. } => lemma_function_safe(thunk, objects, m),
        StaticInitializer::Block { thunk } => lemma_function_safe(thunk, objects, m),
    }
}

proof fn lemma_statics_safe(v: &Vec<StaticInitializer>, objects: Seq<Object>, m: Seq<bool>)
    requires
        is_settled(objects, m),
        statics_ok(*v, cover_rule(objects, m)),
    ensures
        statics_ok(*v, safe_rule(objects, m)),
    decreases *v, 0int,
{
    assert forall|i: int| 0 <= i < v@.len() implies static_ok(#[trigger] v@[i], safe_rule(objects, m)) by {
        lemma_static_safe(&v@[i], objects, m);
    }
}

proof fn lemma_hash_safe(h: &HashObject, objects: Seq<Object>, m: Seq<bool>)
    requires
        is_settled(objects, m),
        hash_ok(*h, cover_rule(objects, m)),
    ensures
        hash_ok(*h, safe_rule(objects, m)),
    decreases *h, 0int,
{
    assert forall|i: int| 0 <= i < pair_map_entries(h.pairs).len() implies value_ok(
        (#[trigger] pair_map_entries(h.pairs)[i]).1,
        safe_rule(objects, m),
    ) by {
        assert(value_ok(pair_map_entries(h.pairs)[i].1, cover_rule(objects, m)));
    }
    assert forall|i: int| 0 <= i < h.values@.len() implies value_ok(
        #[trigger] h.values@[i],
        safe_rule(objects, m),
    ) by {
        assert(value_ok(h.values@[i], cover_rule(objects, m)));
    }
    lemma_objects_safe(&h.local_objects, objects, m);
    lemma_accessors_safe(&h.getters, objects, m);
    lemma_accessors_safe(&h.setters, objects, m);
}

proof fn lemma_generator_safe(g: &GeneratorObject, objects: Seq<Object>, m: Seq<bool>)
    requires
        is_settled(objects, m),
        generator_ok(*g, cover_rule(objects, m)),
    ensures
        generator_ok(*g, safe_rule(objects, m)),
    decreases *g, 0int,
{
    lemma_objects_safe(&g.locals, objects, m);
    assert forall|i: int| 0 <= i < g.args@.len() implies value_ok(
        #[trigger] g.args@[i],
        safe_rule(objects, m),
    ) by {
        assert(value_ok(g.args@[i], cover_rule(objects, m)));
    }
    lemma_function_safe(&g.function, objects, m);
}

proof fn lemma_class_safe(c: &ClassObject, objects: Seq<Object>, m: Seq<bool>)
    requires
        is_settled(objects, m),
        class_ok(*c, cover_rule(objects, m)),
    ensures
        class_ok(*c, safe_rule(objects, m)),
    decreases *c, 0int,
{
    if let Some(f) = &c.constructor {
        lemma_function_safe(f, objects, m);
    }
    lemma_functions_safe(&c.methods, objects, m);
    lemma_functions_safe(&c.static_methods, objects, m);
    lemma_functions_safe(&c.getters, objects, m);
    lemma_functions_safe(&c.setters, objects, m);
    lemma_functions_safe(&c.super_methods, objects, m);
    lemma_functions_safe(&c.super_getters, objects, m);
    lemma_functions_safe(&c.super_setters, objects, m);
    lemma_levels_safe(&c.super_constructor_chain, objects, m);
    lemma_initializers_safe(&c.field_initializers, objects, m);
    lemma_statics_safe(&c.static_initializers, objects, m);
    lemma_fields_safe(&c.static_fields, objects, m);
}

proof fn lemma_instance_safe(i: &InstanceObject, objects: Seq<Object>, m: Seq<bool>)
    requires
        is_settled(objects, m),
        instance_ok(*i, cover_rule(objects, m)),
    ensures
        instance_ok(*i, safe_rule(objects, m)),
    decreases *i, 0int,
{
    lemma_fields_safe(&i.fields, objects, m);
    lemma_functions_safe(&i.methods, objects, m);
    lemma_functions_safe(&i.getters, objects, m);
    lemma_functions_safe(&i.setters, objects, m);
    lemma_functions_safe(&i.super_methods, objects, m);
    lemma_functions_safe(&i.super_getters, objects, m);
    lemma_functions_safe(&i.super_setters, objects, m);
    lemma_levels_safe(&i.super_constructor_chain, objects, m);
}

proof fn lemma_super_ref_safe(s: &SuperRefObject, objects: Seq<Object>, m: Seq<bool>)
    requires
        is_settled(objects, m),
        super_ref_ok(*s, cover_rule(objects, m)),
    ensures
        super_ref_ok(*s, safe_rule(objects, m)),
    decreases *s, 0int,
{
    lemma_nested_safe(&*s.receiver, objects, m);
    lemma_functions_safe(&s.methods, objects, m);
    lemma_functions_safe(&s.getters, objects, m);
    lemma_functions_safe(&s.setters, objects, m);
    lemma_levels_safe(&s.constructor_chain, objects, m);
}

/// Once each marked object has been followed, everything that a marked object
/// refers to, directly or through objects nested in it, is marked.
pub proof fn law_marked_objects_refer_to_marked_ones(objects: Seq<Object>, m: Seq<bool>, k: int)
    requires
        is_settled(objects, m),
        0 <= k < objects.len(),
        k < m.len(),
        m[k],
    ensures
        object_ok(objects[k], safe_rule(objects, m)),
{
    lemma_object_safe(&objects[k], objects, m);
}

/// Marking from nothing leaves each marked object followed, and marks what the
/// roots refer to.
pub proof fn law_marking_settles(
    objects: Seq<Object>,
    before: Seq<bool>,
    after: Seq<bool>,
    part: spec_fn(Rule) -> bool,
)
    requires
        before.len() == objects.len(),
        forall|i: int| 0 <= i < before.len() ==> !#[trigger] before[i],
        marks(objects, before, after, part),
    ensures
        is_settled(objects, after),
        part(cover_rule(objects, after)),
{
    assert(grown(after, after));
    assert(new_ones_covered(objects, before, after, after));
    assert forall|k: int| 0 <= k < objects.len() && k < after.len() && after[k] implies object_ok(
        #[trigger] objects[k],
        cover_rule(objects, after),
    ) by {
        assert(!before[k]);
    }
}

} // verus!
