//! The heap: objects that values refer to by position.
use std::rc::Rc;

use vstd::prelude::*;

use crate::hash::HashObject;
use crate::object::{object_view, GeneratorObject, Object, ObjectView, VmCell};
use crate::value::Value;

verus! {

/// Objects by position, and the positions that are free for new ones.
#[derive(Debug)]
pub struct Heap {
    pub objects: Vec<Object>,
    pub free: Vec<u32>,
}

/// Calls `Rc::ptr_eq`: cells at the same place hold the same. Nothing is said of
/// cells at different places.
#[verifier::external_body]
fn same_cell<T>(a: &Rc<T>, b: &Rc<T>) -> (r: bool)
    ensures
        r ==> *a == *b,
{
    Rc::ptr_eq(a, b)
}

/// Whether an object is a cell that may be shared with an object of the heap.
pub open spec fn is_cell(o: Object) -> bool {
    o is Hash || o is Array || o is Generator
}

/// Asks a comparison about two cells.
fn ask<T, F: Fn(&Rc<T>, &Rc<T>) -> bool>(compare: F, a: &Rc<T>, b: &Rc<T>) -> (same: bool)
    requires
        call_requires(compare, (a, b)),
    ensures
        call_ensures(compare, (a, b), same),
{
    compare(a, b)
}

/// Whether `same` is what comes out when two objects are compared as cells: what
/// `same_cell` returns for them if they are cells of the same type, and false
/// otherwise.
pub closed spec fn is_comparison(a: Object, b: Object, same: bool) -> bool {
    match (a, b) {
        (Object::Hash(x), Object::Hash(y)) => call_ensures(
            same_cell::<VmCell<HashObject>>,
            (&x, &y),
            same,
        ),
        (Object::Array(x), Object::Array(y)) => call_ensures(
            same_cell::<VmCell<Vec<Value>>>,
            (&x, &y),
            same,
        ),
        (Object::Generator(x), Object::Generator(y)) => call_ensures(
            same_cell::<VmCell<GeneratorObject>>,
            (&x, &y),
            same,
        ),
        _ => !same,
    }
}

/// Whether `same` holds what comes out when each of some objects is compared with
/// another one.
pub open spec fn are_comparisons(objects: Seq<Object>, obj: Object, same: Seq<bool>) -> bool {
    same.len() == objects.len() && forall|i: int|
        0 <= i < same.len() ==> is_comparison(objects[i], obj, #[trigger] same[i])
}

/// Compare two objects as cells.
fn compare_cells(a: &Object, b: &Object) -> (same: bool)
    ensures
        is_comparison(*a, *b, same),
        same ==> is_cell(*b) && *a == *b,
{
    match (a, b) {
        (Object::Hash(x), Object::Hash(y)) => ask(same_cell, x, y),
        (Object::Array(x), Object::Array(y)) => ask(same_cell, x, y),
        (Object::Generator(x), Object::Generator(y)) => ask(same_cell, x, y),
        _ => false,
    }
}

/// The position of the first true item of a list, from `i` on.
pub open spec fn first_true(list: Seq<bool>, i: int) -> Option<usize>
    decreases list.len() - i,
{
    if i < 0 || i >= list.len() {
        None
    } else if list[i] {
        Some(i as usize)
    } else {
        first_true(list, i + 1)
    }
}

/// The first position at which cells were found to be the same.
pub fn first_same(same: &Vec<bool>) -> (r: Option<usize>)
    ensures
        r == first_true(same@, 0),
        match r {
            Some(i) => i < same@.len() && same@[i as int] && forall|k: int|
                0 <= k < i ==> !#[trigger] same@[k],
            None => forall|k: int| 0 <= k < same@.len() ==> !#[trigger] same@[k],
        },
{
    let mut i: usize = 0;
    while i < same.len()
        invariant
            0 <= i <= same@.len(),
            first_true(same@, i as int) == first_true(same@, 0),
            forall|k: int| 0 <= k < i ==> !#[trigger] same@[k],
        decreases same@.len() - i,
    {
        if same[i] {
            return Some(i);
        }
        i += 1;
    }
    None
}

impl Heap {
    pub fn new() -> (h: Self)
        ensures
            h.objects@ == Seq::<Object>::empty(),
            h.free@ == Seq::<u32>::empty(),
    {
        Heap { objects: Vec::new(), free: Vec::new() }
    }

    /// Free positions lie within the heap, and none is listed twice.
    pub open spec fn wf(self) -> bool {
        &&& forall|i: int| 0 <= i < self.free@.len() ==> #[trigger] self.free@[i] < self.objects@.len()
        &&& forall|i: int, j: int|
            0 <= i < j < self.free@.len() ==> #[trigger] self.free@[i] != #[trigger] self.free@[j]
    }

    /// Which positions are free, if the free positions are in order.
    pub fn free_positions(&self) -> (r: Option<Vec<bool>>)
        ensures
            match r {
                Some(marks) => self.wf() && marks@.len() == self.objects@.len() && forall|i: int|
                    0 <= i < marks@.len() && i <= u32::MAX ==> (#[trigger] marks@[i]
                        <==> self.free@.contains(i as u32)),
                None => !self.wf(),
            },
    {
        let mut marks: Vec<bool> = Vec::new();
        while marks.len() < self.objects.len()
            invariant
                marks@.len() <= self.objects@.len(),
                forall|i: int| 0 <= i < marks@.len() ==> !#[trigger] marks@[i],
            decreases self.objects@.len() - marks@.len(),
        {
            marks.push(false);
        }
        let mut n: usize = 0;
        while n < self.free.len()
            invariant
                0 <= n <= self.free@.len(),
                marks@.len() == self.objects@.len(),
                forall|k: int| 0 <= k < n ==> #[trigger] self.free@[k] < self.objects@.len(),
                forall|k: int, l: int|
                    0 <= k < l < n ==> #[trigger] self.free@[k] != #[trigger] self.free@[l],
                forall|i: int|
                    0 <= i < marks@.len() && i <= u32::MAX ==> (#[trigger] marks@[i]
                        <==> self.free@.take(n as int).contains(i as u32)),
            decreases self.free@.len() - n,
        {
            let i: usize = self.free[n] as usize;
            let ghost before = self.free@.take(n as int);
            if i >= marks.len() {
                return None;
            }
            if marks[i] {
                proof {
                    let k = before.index_of(i as u32);
                    assert(self.free@[k] == self.free@[n as int]);
                }
                return None;
            }
            proof {
                let after = self.free@.take(n + 1);
                assert(after =~= before.push(i as u32));
                assert forall|k: int| 0 <= k < n implies #[trigger] self.free@[k]
                    != self.free@[n as int] by {
                    assert(before[k] == self.free@[k]);
                    assert(before.contains(self.free@[k]));
                }
                assert forall|j: int|
                    0 <= j < marks@.len() && j <= u32::MAX implies (after.contains(j as u32)
                    <==> j == i || #[trigger] before.contains(j as u32)) by {
                    if j == i {
                        assert(after[n as int] == j as u32);
                    }
                    if before.contains(j as u32) {
                        assert(after[before.index_of(j as u32)] == j as u32);
                    }
                    if after.contains(j as u32) && j != i {
                        assert(before[after.index_of(j as u32)] == j as u32);
                    }
                }
            }
            marks[i] = true;
            n += 1;
        }
        assert(self.free@.take(n as int) =~= self.free@);
        Some(marks)
    }

    /// The room on the heap.
    pub open spec fn room(self) -> Room {
        Room { len: self.objects@.len(), free: self.free@ }
    }

    /// The position that the next object gets.
    pub open spec fn next_position(self) -> u32 {
        if self.free@.len() > 0 {
            self.free@.last()
        } else {
            self.objects@.len() as u32
        }
    }

    /// Put an object on the heap. A free position is used again.
    pub fn insert(&mut self, obj: Object) -> (idx: u32)
        requires
            old(self).wf(),
            old(self).objects@.len() <= u32::MAX,
        ensures
            final(self).wf(),
            idx == old(self).next_position(),
            final(self).objects@ == (if old(self).free@.len() > 0 {
                old(self).objects@.update(idx as int, obj)
            } else {
                old(self).objects@.push(obj)
            }),
            final(self).free@ == (if old(self).free@.len() > 0 {
                old(self).free@.drop_last()
            } else {
                old(self).free@
            }),
            final(self).objects@[idx as int] == obj,
            !final(self).free@.contains(idx),
            keeps_objects(*old(self), *final(self)),
    {
        let ghost before = *self;
        match self.free.pop() {
            Some(idx) => {
                self.objects[idx as usize] = obj;
                proof {
                    assert(before.free@.contains(before.free@.last()));
                    if self.free@.contains(idx) {
                        let k = self.free@.index_of(idx);
                        assert(before.free@[k] != before.free@[before.free@.len() - 1]);
                    }
                    assert forall|i: u32| #[trigger]
                        self.free@.contains(i) implies before.free@.contains(i) by {
                        let k = self.free@.index_of(i);
                        assert(before.free@[k] == i);
                    }
                }
                idx
            },
            None => {
                let idx: u32 = self.objects.len() as u32;
                self.objects.push(obj);
                idx
            },
        }
    }

    pub fn get(&self, idx: u32) -> (obj: &Object)
        requires
            idx < self.objects@.len(),
        ensures
            *obj == self.objects@[idx as int],
    {
        &self.objects[idx as usize]
    }

    /// How many positions are in use.
    pub fn allocated_count(&self) -> (n: usize)
        ensures
            n == (if self.free@.len() <= self.objects@.len() {
                (self.objects@.len() - self.free@.len()) as int
            } else {
                0
            }),
    {
        if self.free.len() <= self.objects.len() {
            self.objects.len() - self.free.len()
        } else {
            0
        }
    }

    /// The first position at which the heap holds the same cell as `obj`, as comparing
    /// them tells. Objects that are not cells have none, nor have cells that equal no
    /// object of the heap.
    pub fn cell_position(&self, obj: &Object) -> (r: Option<usize>)
        ensures
            exists|same: Seq<bool>| #[trigger]
                are_comparisons(self.objects@, *obj, same) && r == first_true(same, 0),
            r matches Some(i) ==> i < self.objects@.len() && is_cell(*obj)
                && self.objects@[i as int] == *obj,
    {
        let mut same: Vec<bool> = Vec::new();
        let mut i: usize = 0;
        while i < self.objects.len()
            invariant
                0 <= i <= self.objects@.len(),
                same@.len() == i,
                forall|k: int|
                    0 <= k < i ==> is_comparison(self.objects@[k], *obj, #[trigger] same@[k]),
                forall|k: int|
                    0 <= k < i && #[trigger] same@[k] ==> is_cell(*obj) && self.objects@[k]
                        == *obj,
            decreases self.objects@.len() - i,
        {
            same.push(compare_cells(&self.objects[i], obj));
            i += 1;
        }
        assert(are_comparisons(self.objects@, *obj, same@));
        first_same(&same)
    }
}

/// Whether a value can be resolved: it refers to nothing, or to an object of the
/// heap.
pub open spec fn resolves(v: Value, heap: Heap) -> bool {
    v matches Value::Heap(i) ==> i < heap.objects@.len()
}

/// The object that a value stands for.
pub open spec fn value_object(v: Value, heap: Heap) -> ObjectView {
    match v {
        Value::Undefined => ObjectView::Undefined,
        Value::Null => ObjectView::Null,
        Value::Bool(b) => ObjectView::Boolean(b),
        Value::Int(n) => ObjectView::Integer(n),
        Value::Float(bits) => ObjectView::Float(bits),
        Value::Heap(i) => object_view(heap.objects@[i as int]),
    }
}

/// The object that a value stands for. An object of the heap is copied; arrays
/// and the like stay shared.
pub fn val_to_obj(v: Value, heap: &Heap) -> (obj: Object)
    requires
        resolves(v, *heap),
    ensures
        object_view(obj) == value_object(v, *heap),
        v matches Value::Heap(i) ==> is_cell(heap.objects@[i as int]) ==> obj
            == heap.objects@[i as int],
{
    match v {
        Value::Undefined => Object::Undefined,
        Value::Null => Object::Null,
        Value::Bool(b) => Object::Boolean(b),
        Value::Int(n) => Object::Integer(n),
        Value::Float(bits) => Object::Float(bits),
        Value::Heap(i) => heap.objects[i as usize].dup(),
    }
}

/// Whether a heap still holds the objects of another, but for positions that
/// were free.
pub open spec fn keeps_objects(before: Heap, after: Heap) -> bool {
    &&& before.objects@.len() <= after.objects@.len()
    &&& forall|i: int|
        0 <= i < before.objects@.len() && !before.free@.contains(i as u32)
            ==> #[trigger] after.objects@[i] == before.objects@[i]
    &&& forall|i: u32| #[trigger] after.free@.contains(i) ==> before.free@.contains(i)
}

/// The room on a heap: how many positions there are, and which of them are free.
#[verifier::ext_equal]
pub struct Room {
    pub len: nat,
    pub free: Seq<u32>,
}

impl Room {
    /// The value that stands for the next object.
    pub open spec fn value_of(self, o: Object) -> Value {
        match o {
            Object::Integer(n) => Value::Int(n),
            Object::Float(bits) => Value::Float(bits),
            Object::Boolean(b) => Value::Bool(b),
            Object::Null => Value::Null,
            Object::Undefined => Value::Undefined,
            _ => if self.free.len() > 0 {
                Value::Heap(self.free.last())
            } else {
                Value::Heap(self.len as u32)
            },
        }
    }

    /// The room that the next object leaves.
    pub open spec fn after(self, o: Object) -> Room {
        if is_inline(o) {
            self
        } else if self.free.len() > 0 {
            Room { free: self.free.drop_last(), ..self }
        } else {
            Room { len: self.len + 1, ..self }
        }
    }

    /// The room that the first `n` of some objects leave.
    pub open spec fn after_all(self, list: Seq<Object>, n: int) -> Room
        decreases n,
    {
        if n <= 0 {
            self
        } else {
            self.after_all(list, n - 1).after(list[n - 1])
        }
    }
}

/// The objects of a heap with one more in its place.
pub open spec fn with_object(heap: Heap, o: Object) -> Seq<Object> {
    if is_inline(o) {
        heap.objects@
    } else if heap.free@.len() > 0 {
        heap.objects@.update(heap.free@.last() as int, o)
    } else {
        heap.objects@.push(o)
    }
}

/// Whether an object is held in place by a value, without a heap.
pub open spec fn is_inline(o: Object) -> bool {
    o is Integer || o is Float || o is Boolean || o is Null || o is Undefined
}

/// The value that stands for an object. Simple objects are held in place; others
/// go to the heap.
pub fn obj_into_val(obj: Object, heap: &mut Heap) -> (v: Value)
    requires
        old(heap).wf(),
        old(heap).objects@.len() <= u32::MAX,
    ensures
        final(heap).wf(),
        resolves(v, *final(heap)),
        v == old(heap).room().value_of(obj),
        value_object(v, *final(heap)) == object_view(obj),
        final(heap).objects@ == with_object(*old(heap), obj),
        final(heap).room() == old(heap).room().after(obj),
        is_inline(obj) ==> *final(heap) == *old(heap) && !(v is Heap),
        !is_inline(obj) ==> v == Value::Heap(old(heap).next_position())
            && final(heap).objects@[old(heap).next_position() as int] == obj
            && !final(heap).free@.contains(old(heap).next_position()),
        final(heap).objects@.len() <= old(heap).objects@.len() + 1,
        keeps_objects(*old(heap), *final(heap)),
{
    match obj {
        Object::Integer(n) => Value::Int(n),
        Object::Float(bits) => Value::Float(bits),
        Object::Boolean(b) => Value::Bool(b),
        Object::Null => Value::Null,
        Object::Undefined => Value::Undefined,
        _ => {
            let idx: u32 = heap.insert(obj);
            Value::Heap(idx)
        },
    }
}

// Sweeping

/// What is left at a position after a sweep. Objects that a value holds in place
/// cost nothing to keep.
pub open spec fn swept_object(o: Object, marked: bool) -> Object {
    if marked || is_inline(o) {
        o
    } else {
        Object::Null
    }
}

/// The objects after a sweep.
pub open spec fn swept(objects: Seq<Object>, m: Seq<bool>) -> Seq<Object> {
    Seq::new(objects.len(), |i: int| swept_object(objects[i], m[i]))
}

/// The positions below `n` that a sweep frees, in order.
pub open spec fn freed(objects: Seq<Object>, m: Seq<bool>, n: int) -> Seq<u32>
    decreases n,
{
    if n <= 0 {
        Seq::empty()
    } else if m[n - 1] || is_inline(objects[n - 1]) {
        freed(objects, m, n - 1)
    } else {
        freed(objects, m, n - 1).push((n - 1) as u32)
    }
}

/// The number of objects up to the last one that is not null.
pub open spec fn used_length(objects: Seq<Object>) -> int
    decreases objects.len(),
{
    if objects.len() > 0 && objects.last() is Null {
        used_length(objects.drop_last())
    } else {
        objects.len() as int
    }
}

/// The first `k` positions of a list that lie below `n`.
pub open spec fn positions_below(list: Seq<u32>, n: int, k: int) -> Seq<u32>
    decreases k,
{
    if k <= 0 {
        Seq::empty()
    } else if list[k - 1] < n {
        positions_below(list, n, k - 1).push(list[k - 1])
    } else {
        positions_below(list, n, k - 1)
    }
}

proof fn lemma_used_length(objects: Seq<Object>)
    ensures
        0 <= used_length(objects) <= objects.len(),
        forall|i: int| used_length(objects) <= i < objects.len() ==> #[trigger] objects[i] is Null,
    decreases objects.len(),
{
    if objects.len() > 0 && objects.last() is Null {
        lemma_used_length(objects.drop_last());
        assert forall|i: int| used_length(objects) <= i < objects.len() implies
            #[trigger] objects[i] is Null by {
            if i < objects.len() - 1 {
                assert(objects.drop_last()[i] == objects[i]);
            }
        }
    }
}

/// A heap does not grow in a sweep.
pub(crate) proof fn lemma_used_within(objects: Seq<Object>)
    ensures
        0 <= used_length(objects) <= objects.len(),
{
    lemma_used_length(objects);
}

proof fn lemma_freed_ascends(objects: Seq<Object>, m: Seq<bool>, n: int)
    requires
        n <= objects.len() <= u32::MAX,
    ensures
        forall|i: int| 0 <= i < freed(objects, m, n).len() ==> #[trigger] freed(objects, m, n)[i] < n,
        forall|i: int, j: int|
            0 <= i < j < freed(objects, m, n).len() ==> #[trigger] freed(objects, m, n)[i]
                < #[trigger] freed(objects, m, n)[j],
    decreases n,
{
    if n > 0 {
        lemma_freed_ascends(objects, m, n - 1);
        let prev = freed(objects, m, n - 1);
        let cur = freed(objects, m, n);
        assert forall|i: int| 0 <= i < cur.len() implies #[trigger] cur[i] < n by {
            if i < prev.len() {
                assert(cur[i] == prev[i]);
            }
        }
        assert forall|i: int, j: int| 0 <= i < j < cur.len() implies #[trigger] cur[i]
            < #[trigger] cur[j] by {
            assert(cur[i] == prev[i]);
            if j < prev.len() {
                assert(cur[j] == prev[j]);
            }
        }
    }
}

proof fn lemma_positions_below(list: Seq<u32>, n: int, k: int)
    requires
        0 <= k <= list.len(),
        forall|i: int, j: int| 0 <= i < j < list.len() ==> #[trigger] list[i] < #[trigger] list[j],
    ensures
        forall|i: int|
            0 <= i < positions_below(list, n, k).len() ==> #[trigger] positions_below(
                list,
                n,
                k,
            )[i] < n,
        k < list.len() ==> forall|i: int|
            0 <= i < positions_below(list, n, k).len() ==> #[trigger] positions_below(
                list,
                n,
                k,
            )[i] < list[k],
        forall|i: int, j: int|
            0 <= i < j < positions_below(list, n, k).len() ==> #[trigger] positions_below(
                list,
                n,
                k,
            )[i] < #[trigger] positions_below(list, n, k)[j],
    decreases k,
{
    if k > 0 {
        lemma_positions_below(list, n, k - 1);
        let prev = positions_below(list, n, k - 1);
        let cur = positions_below(list, n, k);
        assert forall|i: int| 0 <= i < cur.len() implies #[trigger] cur[i] < n && (k < list.len()
            ==> cur[i] < list[k]) by {
            if i < prev.len() {
                assert(cur[i] == prev[i]);
            }
            if k < list.len() {
                assert(list[k - 1] < list[k]);
            }
        }
        assert forall|i: int, j: int| 0 <= i < j < cur.len() implies #[trigger] cur[i]
            < #[trigger] cur[j] by {
            assert(cur[i] == prev[i]);
            if j < prev.len() {
                assert(cur[j] == prev[j]);
            }
        }
    }
}

/// A sweep frees no marked position.
pub(crate) proof fn lemma_freed_is_unmarked(objects: Seq<Object>, m: Seq<bool>, n: int)
    requires
        m.len() == objects.len() <= u32::MAX,
    ensures
        ({
            let list = freed(objects, m, objects.len() as int);
            forall|k: u32| #[trigger]
                positions_below(list, n, list.len() as int).contains(k) ==> !m[k as int]
        }),
{
    let list = freed(objects, m, objects.len() as int);
    let kept = positions_below(list, n, list.len() as int);
    lemma_freed_entries(objects, m, objects.len() as int);
    lemma_positions_come_from(list, n, list.len() as int);
    assert forall|k: u32| #[trigger] kept.contains(k) implies !m[k as int] by {
        let i = kept.index_of(k);
        assert(list.contains(kept[i]));
        let j = list.index_of(k);
        assert(!m[list[j] as int]);
    }
}

proof fn lemma_freed_entries(objects: Seq<Object>, m: Seq<bool>, n: int)
    requires
        m.len() == objects.len() <= u32::MAX,
        n <= objects.len(),
    ensures
        forall|i: int|
            0 <= i < freed(objects, m, n).len() ==> !m[(#[trigger] freed(objects, m, n)[i]) as int],
    decreases n,
{
    if n > 0 {
        lemma_freed_entries(objects, m, n - 1);
        let prev = freed(objects, m, n - 1);
        let cur = freed(objects, m, n);
        assert forall|i: int| 0 <= i < cur.len() implies !m[(#[trigger] cur[i]) as int] by {
            if i < prev.len() {
                assert(cur[i] == prev[i]);
            }
        }
    }
}

proof fn lemma_positions_come_from(list: Seq<u32>, n: int, k: int)
    requires
        0 <= k <= list.len(),
    ensures
        forall|i: int|
            0 <= i < positions_below(list, n, k).len() ==> list.contains(
                #[trigger] positions_below(list, n, k)[i],
            ),
    decreases k,
{
    if k > 0 {
        lemma_positions_come_from(list, n, k - 1);
        let prev = positions_below(list, n, k - 1);
        let cur = positions_below(list, n, k);
        assert forall|i: int| 0 <= i < cur.len() implies list.contains(#[trigger] cur[i]) by {
            if i < prev.len() {
                assert(cur[i] == prev[i]);
            } else {
                assert(list[k - 1] == cur[i]);
            }
        }
    }
}

impl Heap {
    /// Free the positions whose objects are not marked. Positions at the end
    /// that hold nothing are given up.
    pub fn sweep(&mut self, reachable: &Vec<bool>)
        requires
            reachable@.len() == old(self).objects@.len(),
            old(self).objects@.len() <= u32::MAX,
        ensures
            final(self).wf(),
            ({
                let all = swept(old(self).objects@, reachable@);
                let n = used_length(all);
                let list = freed(old(self).objects@, reachable@, all.len() as int);
                &&& final(self).objects@ == all.take(n)
                &&& final(self).free@ == positions_below(list, n, list.len() as int)
            }),
    {
        let ghost before = self.objects@;
        let ghost m = reachable@;
        let ghost all = swept(before, m);
        let len: usize = self.objects.len();
        self.free = Vec::new();
        let mut i: usize = 0;
        while i < len
            invariant
                0 <= i <= len == before.len() == m.len() == self.objects@.len(),
                len <= u32::MAX,
                m == reachable@,
                all == swept(before, m),
                forall|k: int| 0 <= k < i ==> #[trigger] self.objects@[k] == all[k],
                forall|k: int| i <= k < len ==> #[trigger] self.objects@[k] == before[k],
                self.free@ == freed(before, m, i as int),
            decreases len - i,
        {
            if !reachable[i] {
                let keep: bool = match &self.objects[i] {
                    Object::Null => true,
                    Object::Undefined => true,
                    Object::Integer(_) => true,
                    Object::Float(_) => true,
                    Object::Boolean(_) => true,
                    _ => false,
                };
                if !keep {
                    self.objects[i] = Object::Null;
                    self.free.push(i as u32);
                }
            }
            i += 1;
        }
        let ghost list = self.free@;
        assert(self.objects@ =~= all);
        assert(self.objects@ =~= all.take(all.len() as int));
        let mut n: usize = len;
        while n > 0
            invariant
                0 <= n <= len == all.len(),
                self.objects@ == all.take(n as int),
                used_length(self.objects@) == used_length(all),
                self.free@ == list,
            ensures
                n == used_length(all),
                self.objects@ == all.take(n as int),
                self.free@ == list,
            decreases n,
        {
            let null: bool = match &self.objects[n - 1] {
                Object::Null => true,
                _ => false,
            };
            if !null {
                break ;
            }
            self.objects.pop();
            n -= 1;
            assert(self.objects@ =~= all.take(n as int));
        }
        self.trim_free_list(n);
        proof {
            lemma_freed_ascends(before, m, len as int);
            lemma_positions_below(list, n as int, list.len() as int);
        }
    }

    /// Drop the free positions from `n` on.
    fn trim_free_list(&mut self, n: usize)
        ensures
            final(self).objects@ == old(self).objects@,
            final(self).free@ == positions_below(
                old(self).free@,
                n as int,
                old(self).free@.len() as int,
            ),
    {
        let mut kept: Vec<u32> = Vec::new();
        let mut k: usize = 0;
        while k < self.free.len()
            invariant
                0 <= k <= self.free@.len(),
                self.objects@ == old(self).objects@,
                self.free@ == old(self).free@,
                kept@ == positions_below(self.free@, n as int, k as int),
            decreases self.free@.len() - k,
        {
            if (self.free[k] as usize) < n {
                kept.push(self.free[k]);
            }
            k += 1;
        }
        self.free = kept;
    }
}

/// A sweep keeps each marked object in its place, unless there is nothing but
/// null there.
pub proof fn law_sweep_keeps_marked_objects(objects: Seq<Object>, m: Seq<bool>, i: int)
    requires
        m.len() == objects.len(),
        0 <= i < objects.len(),
        m[i],
        !(objects[i] is Null),
    ensures
        i < used_length(swept(objects, m)),
        swept(objects, m).take(used_length(swept(objects, m)))[i] == objects[i],
{
    let all = swept(objects, m);
    lemma_used_length(all);
    assert(all[i] == objects[i]);
}

} // verus!
