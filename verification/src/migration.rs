//! Moving the objects that a hash has brought along to the heap.
use std::rc::Rc;

use vstd::prelude::*;

use crate::hash::{hash_view, pair_map_entries, HashObject, HashView};
use crate::heap::{keeps_objects, Heap};
use crate::key::HashKey;
use crate::object::{object_view, Object, ObjectView, VmCell};
use crate::value::Value;

verus! {

/// A value that referred to a local object, once those objects are at the
/// positions `map` of the heap.
pub open spec fn moved_value(v: Value, map: Seq<u32>) -> Value {
    match v {
        Value::Heap(k) => Value::Heap(map[k as int]),
        _ => v,
    }
}

/// Whether values refer only to the first `n` objects.
pub open spec fn refer_below(values: Seq<Value>, n: nat) -> bool {
    forall|i: int| 0 <= i < values.len() ==> ((#[trigger] values[i]) matches Value::Heap(k) ==> k < n)
}

/// The values in pairs.
pub open spec fn pair_values(pairs: Seq<(HashKey, Value)>) -> Seq<Value> {
    Seq::new(pairs.len(), |i: int| pairs[i].1)
}

/// Whether the values of a hash refer to its local objects, and so on for the
/// hashes among those. A hash without local objects may refer to anything.
pub open spec fn is_local(h: HashView) -> bool
    decreases h,
{
    h.local_objects.len() > 0 ==> {
        &&& refer_below(h.values, h.local_objects.len())
        &&& refer_below(pair_values(h.pairs), h.local_objects.len())
        &&& forall|k: int|
            0 <= k < h.local_objects.len() ==> match #[trigger] h.local_objects[k] {
                ObjectView::Hash(inner) => is_local(inner),
                _ => true,
            }
    }
}

/// The number of the first `n` local objects, with those of the hashes among
/// them.
pub open spec fn local_count(h: HashView, n: int) -> nat
    decreases h, n,
{
    if n <= 0 || n > h.local_objects.len() {
        0
    } else {
        local_count(h, n - 1) + 1 + match h.local_objects[n - 1] {
            ObjectView::Hash(inner) => local_count(inner, inner.local_objects.len() as int),
            _ => 0,
        }
    }
}

/// A hash whose values refer to the positions `map` in place of local objects.
pub open spec fn relocated(h: HashView, map: Seq<u32>) -> HashView {
    HashView {
        values: Seq::new(h.values.len(), |i: int| moved_value(h.values[i], map)),
        pairs: Seq::new(h.pairs.len(), |i: int| (h.pairs[i].0, moved_value(h.pairs[i].1, map))),
        local_objects: Seq::empty(),
        ..h
    }
}

/// Whether a position of the heap is in use.
pub open spec fn is_used(heap: Heap, i: u32) -> bool {
    i < heap.objects@.len() && !heap.free@.contains(i)
}

/// Whether `after` is `before` with its local objects moved to the heap, and with
/// those of the hashes among them. Each is at a place of its own, which was not in
/// use on the heap `start` before; these are the `places`.
pub open spec fn is_migrated(
    before: HashView,
    after: HashView,
    start: Heap,
    heap: Heap,
    places: Set<u32>,
) -> bool
    decreases before,
{
    if before.local_objects.len() == 0 {
        after == before && places == Set::<u32>::empty()
    } else {
        exists|map: Seq<u32>, parts: Seq<Set<u32>>| #[trigger]
            is_laid_out(before, after, start, heap, places, map, parts) && forall|k: int|
                0 <= k < before.local_objects.len() ==> match before.local_objects[k] {
                    ObjectView::Hash(inner) => match object_view(
                        heap.objects@[#[trigger] map[k] as int],
                    ) {
                        ObjectView::Hash(outer) => is_migrated(inner, outer, start, heap, parts[k]),
                        _ => false,
                    },
                    other => object_view(heap.objects@[map[k] as int]) == other && parts[k]
                        == Set::<u32>::empty(),
                }
    }
}

/// Whether a hash refers to the positions `map` in place of its local objects, and
/// these and the `parts`, which are what the hashes among them have brought along,
/// make up the `places`. No place occurs twice, and no position was in use before.
pub open spec fn is_laid_out(
    before: HashView,
    after: HashView,
    start: Heap,
    heap: Heap,
    places: Set<u32>,
    map: Seq<u32>,
    parts: Seq<Set<u32>>,
) -> bool {
    let n = before.local_objects.len();
    &&& map.len() == n && parts.len() == n
    &&& after == relocated(before, map)
    &&& forall|p: u32| #[trigger]
        places.contains(p) <==> map.contains(p) || in_part(parts, n as int, p)
    &&& are_apart(map, parts, n as int)
    &&& forall|k: int|
        0 <= k < n ==> is_used(heap, #[trigger] map[k]) && !is_used(start, map[k])
}

/// Whether one of the first `n` sets holds a position.
pub open spec fn in_part(parts: Seq<Set<u32>>, n: int, p: u32) -> bool {
    exists|k: int| 0 <= k < n && #[trigger] parts[k].contains(p)
}

/// Whether no position occurs twice in the first `n` positions and sets.
pub open spec fn are_apart(map: Seq<u32>, parts: Seq<Set<u32>>, n: int) -> bool {
    &&& forall|j: int, k: int|
        0 <= j < n && 0 <= k < n && j != k ==> #[trigger] map[j] != #[trigger] map[k]
    &&& forall|j: int, k: int|
        0 <= j < n && 0 <= k < n ==> !(#[trigger] parts[j]).contains(#[trigger] map[k])
    &&& forall|j: int, k: int, p: u32|
        0 <= j < n && 0 <= k < n && j != k && #[trigger] parts[j].contains(p)
            ==> !#[trigger] parts[k].contains(p)
}

/// Whether an object of the heap is a local object that was moved there.
spec fn object_moved(
    from: ObjectView,
    to: ObjectView,
    start: Heap,
    heap: Heap,
    part: Set<u32>,
) -> bool {
    match from {
        ObjectView::Hash(inner) => match to {
            ObjectView::Hash(outer) => is_migrated(inner, outer, start, heap, part),
            _ => false,
        },
        other => to == other && part == Set::<u32>::empty(),
    }
}

/// Further objects on the heap change nothing about what was moved there, and a
/// place that was not in use was not in use earlier.
proof fn lemma_migrated_stays(
    before: HashView,
    after: HashView,
    later: Heap,
    start: Heap,
    a: Heap,
    b: Heap,
    places: Set<u32>,
)
    requires
        is_migrated(before, after, later, a, places),
        keeps_objects(start, later),
        keeps_objects(a, b),
    ensures
        is_migrated(before, after, start, b, places),
    decreases before,
{
    if before.local_objects.len() > 0 {
        let (map, parts) = choose|map: Seq<u32>, parts: Seq<Set<u32>>| #[trigger]
            is_laid_out(before, after, later, a, places, map, parts) && forall|k: int|
                0 <= k < before.local_objects.len() ==> object_moved(
                    before.local_objects[k],
                    object_view(a.objects@[#[trigger] map[k] as int]),
                    later,
                    a,
                    parts[k],
                );
        assert forall|k: int| 0 <= k < before.local_objects.len() implies is_used(
            b,
            #[trigger] map[k],
        ) && !is_used(start, map[k]) && object_moved(
            before.local_objects[k],
            object_view(b.objects@[map[k] as int]),
            start,
            b,
            parts[k],
        ) by {
            assert(is_used(a, map[k]));
            assert(b.objects@[map[k] as int] == a.objects@[map[k] as int]);
            lemma_object_stays(
                before.local_objects[k],
                object_view(a.objects@[map[k] as int]),
                later,
                start,
                a,
                b,
                parts[k],
            );
        }
        assert(is_laid_out(before, after, start, b, places, map, parts));
    }
}

proof fn lemma_object_stays(
    from: ObjectView,
    to: ObjectView,
    later: Heap,
    start: Heap,
    a: Heap,
    b: Heap,
    part: Set<u32>,
)
    requires
        object_moved(from, to, later, a, part),
        keeps_objects(start, later),
        keeps_objects(a, b),
    ensures
        object_moved(from, to, start, b, part),
    decreases from,
{
    if let ObjectView::Hash(inner) = from {
        if let ObjectView::Hash(outer) = to {
            lemma_migrated_stays(inner, outer, later, start, a, b, part);
        }
    }
}

/// The places to which objects were moved are in use, and were not before.
pub proof fn law_places_are_new(
    before: HashView,
    after: HashView,
    start: Heap,
    heap: Heap,
    places: Set<u32>,
    p: u32,
)
    requires
        is_migrated(before, after, start, heap, places),
        places.contains(p),
    ensures
        is_used(heap, p),
        !is_used(start, p),
    decreases before,
{
    if before.local_objects.len() > 0 {
        let (map, parts) = choose|map: Seq<u32>, parts: Seq<Set<u32>>| #[trigger]
            is_laid_out(before, after, start, heap, places, map, parts) && forall|k: int|
                0 <= k < before.local_objects.len() ==> object_moved(
                    before.local_objects[k],
                    object_view(heap.objects@[#[trigger] map[k] as int]),
                    start,
                    heap,
                    parts[k],
                );
        let n = before.local_objects.len() as int;
        if map.contains(p) {
            let k = choose|k: int| 0 <= k < map.len() && map[k] == p;
            assert(is_used(heap, map[k]));
        } else {
            let k = choose|k: int| 0 <= k < n && #[trigger] parts[k].contains(p);
            assert(is_used(heap, map[k]));
            if let ObjectView::Hash(inner) = before.local_objects[k] {
                if let ObjectView::Hash(outer) = object_view(heap.objects@[map[k] as int]) {
                    law_places_are_new(inner, outer, start, heap, parts[k], p);
                }
            }
        }
    }
}

proof fn lemma_part_is_new(
    from: ObjectView,
    to: ObjectView,
    start: Heap,
    heap: Heap,
    part: Set<u32>,
)
    requires
        object_moved(from, to, start, heap, part),
    ensures
        forall|p: u32| #[trigger] part.contains(p) ==> is_used(heap, p) && !is_used(start, p),
{
    assert forall|p: u32| #[trigger] part.contains(p) implies is_used(heap, p) && !is_used(
        start,
        p,
    ) by {
        if let ObjectView::Hash(inner) = from {
            if let ObjectView::Hash(outer) = to {
                law_places_are_new(inner, outer, start, heap, part, p);
            }
        }
    }
}

proof fn lemma_count_grows(h: HashView, m: int, n: int)
    requires
        0 <= m <= n <= h.local_objects.len(),
    ensures
        local_count(h, m) + (n - m) <= local_count(h, n),
    decreases n - m,
{
    if m < n {
        lemma_count_grows(h, m, n - 1);
    }
}

impl HashObject {
    /// Move the local objects to the heap, and let the values refer to them
    /// there. Done once, when a program's constants are loaded. A hash among them
    /// that others share is copied first: the others keep it as it was. Nothing else
    /// is put on the heap.
    pub fn migrate_local_objects(&mut self, heap: &mut Heap)
        requires
            is_local(hash_view(*old(self))),
            old(heap).wf(),
            old(heap).objects@.len() + local_count(
                hash_view(*old(self)),
                old(self).local_objects@.len() as int,
            ) <= u32::MAX,
        ensures
            exists|places: Set<u32>| #[trigger]
                is_migrated(
                    hash_view(*old(self)),
                    hash_view(*final(self)),
                    *old(heap),
                    *final(heap),
                    places,
                ),
            final(self).local_objects@.len() == 0,
            old(self).local_objects@.len() == 0 ==> *final(self) == *old(self) && *final(heap)
                == *old(heap),
            final(heap).wf(),
            keeps_objects(*old(heap), *final(heap)),
            final(heap).objects@.len() <= old(heap).objects@.len() + local_count(
                hash_view(*old(self)),
                old(self).local_objects@.len() as int,
            ),
            final(heap).objects@.len() - final(heap).free@.len() == old(heap).objects@.len() - old(
                heap,
            ).free@.len() + local_count(
                hash_view(*old(self)),
                old(self).local_objects@.len() as int,
            ),
        decreases hash_view(*old(self)),
    {
        let ghost before = *self;
        let ghost view = hash_view(before);
        let ghost start = *heap;
        if self.local_objects.len() == 0 {
            assert(is_migrated(view, view, start, start, Set::empty()));
            return ;
        }
        let ghost locals = view.local_objects;
        let count: usize = self.local_objects.len();
        let mut list: Vec<Object> = Vec::new();
        core::mem::swap(&mut self.local_objects, &mut list);
        let mut map: Vec<u32> = Vec::new();
        let ghost mut parts: Seq<Set<u32>> = Seq::empty();
        let mut i: usize = 0;
        while i < count
            invariant
                before == *old(self),
                view == hash_view(before),
                start == *old(heap),
                0 <= i <= count == locals.len() == list@.len() == map@.len() + (count - i),
                locals == view.local_objects,
                is_local(view),
                locals.len() > 0,
                *self == (HashObject { local_objects: self.local_objects, ..before }),
                self.local_objects@.len() == 0,
                forall|k: int| i <= k < count ==> object_view(#[trigger] list@[k]) == locals[k],
                heap.wf(),
                keeps_objects(start, *heap),
                heap.objects@.len() <= start.objects@.len() + local_count(view, i as int),
                heap.objects@.len() - heap.free@.len() == start.objects@.len() - start.free@.len()
                    + local_count(view, i as int),
                start.objects@.len() + local_count(view, count as int) <= u32::MAX,
                parts.len() == i,
                are_apart(map@, parts, i as int),
                forall|k: int|
                    0 <= k < i ==> is_used(*heap, #[trigger] map@[k]) && !is_used(start, map@[k])
                        && object_moved(
                        locals[k],
                        object_view(heap.objects@[map@[k] as int]),
                        start,
                        *heap,
                        parts[k],
                    ),
            decreases count - i,
        {
            let ghost earlier = *heap;
            proof {
                lemma_count_grows(view, i + 1, count as int);
                assert(decreases_to!(view => view.local_objects[i as int]));
                assert(object_view(list@[i as int]) == locals[i as int]);
                assert(local_count(view, i + 1) == local_count(view, i as int) + 1
                    + match locals[i as int] {
                    ObjectView::Hash(inner) => local_count(inner, inner.local_objects.len() as int),
                    _ => 0,
                });
            }
            let mut obj = Object::Null;
            core::mem::swap(&mut list[i], &mut obj);
            let ghost local = object_view(obj);
            let ghost mut part = Set::<u32>::empty();
            let obj = match obj {
                Object::Hash(rc) => if rc.value.local_objects.len() == 0 {
                    assert(local == ObjectView::Hash(hash_view(rc.value)));
                    assert(local_count(hash_view(rc.value), 0) == 0);
                    assert(object_moved(local, local, earlier, *heap, part));
                    Object::Hash(rc)
                } else {
                    let mut inner = match Rc::try_unwrap(rc) {
                        Ok(cell) => cell.into_inner(),
                        Err(rc) => rc.value.copy(),
                    };
                    let ghost inner_view = hash_view(inner);
                    assert(local == ObjectView::Hash(inner_view));
                    inner.migrate_local_objects(heap);
                    proof {
                        part = choose|places: Set<u32>| #[trigger]
                            is_migrated(inner_view, hash_view(inner), earlier, *heap, places);
                    }
                    Object::Hash(Rc::new(VmCell::new(inner)))
                },
                other => {
                    assert(!(local is Hash));
                    other
                },
            };
            let ghost middle = *heap;
            let idx: u32 = heap.insert(obj);
            let ghost map_before = map@;
            let ghost parts_before = parts;
            map.push(idx);
            proof {
                parts = parts.push(part);
                let to = object_view(obj);
                assert(keeps_objects(earlier, middle));
                assert(keeps_objects(start, *heap));
                assert(object_moved(local, to, earlier, middle, part));
                lemma_part_is_new(local, to, earlier, middle, part);
                lemma_object_stays(local, to, earlier, start, middle, *heap, part);
                assert(!is_used(middle, idx)) by {
                    if middle.free@.len() > 0 {
                        assert(middle.free@.contains(middle.free@.last()));
                    }
                }
                assert(!is_used(start, idx));
                assert forall|k: int| 0 <= k < i + 1 implies is_used(*heap, #[trigger] map@[k])
                    && !is_used(start, map@[k]) && object_moved(
                    locals[k],
                    object_view(heap.objects@[map@[k] as int]),
                    start,
                    *heap,
                    parts[k],
                ) by {
                    if k < i {
                        assert(map@[k] == map_before[k]);
                        assert(is_used(earlier, map_before[k]));
                        assert(keeps_objects(earlier, *heap));
                        assert(heap.objects@[map@[k] as int] == earlier.objects@[map@[k] as int]);
                        assert(keeps_objects(start, start));
                        lemma_object_stays(
                            locals[k],
                            object_view(earlier.objects@[map@[k] as int]),
                            start,
                            start,
                            earlier,
                            *heap,
                            parts[k],
                        );
                    }
                }
                assert forall|k: int| 0 <= k < i implies is_used(earlier, #[trigger] map_before[k])
                    && map@[k] == map_before[k] && map_before[k] != idx && !part.contains(
                    map_before[k],
                ) by {}
                assert forall|k: int, p: u32|
                    0 <= k < i && #[trigger] parts_before[k].contains(p) implies p != idx
                    && !part.contains(p) by {
                    assert(is_used(earlier, map_before[k]));
                    lemma_part_is_new(
                        locals[k],
                        object_view(earlier.objects@[map_before[k] as int]),
                        start,
                        earlier,
                        parts_before[k],
                    );
                    assert(is_used(earlier, p));
                }
                assert(!part.contains(idx));
                assert forall|j: int, k: int|
                    0 <= j < i + 1 && 0 <= k < i + 1 && j != k implies #[trigger] map@[j]
                    != #[trigger] map@[k] by {
                    if j < i {
                        assert(map@[j] == map_before[j]);
                    }
                    if k < i {
                        assert(map@[k] == map_before[k]);
                    }
                }
                assert forall|j: int, k: int|
                    0 <= j < i + 1 && 0 <= k < i + 1 implies !(#[trigger] parts[j]).contains(
                    #[trigger] map@[k],
                ) by {
                    if k < i {
                        assert(map@[k] == map_before[k]);
                        assert(is_used(earlier, map_before[k]));
                    }
                    if j < i {
                        assert(parts[j] == parts_before[j]);
                    }
                }
                assert forall|j: int, k: int, p: u32|
                    0 <= j < i + 1 && 0 <= k < i + 1 && j != k && #[trigger] parts[j].contains(
                        p,
                    ) implies !#[trigger] parts[k].contains(p) by {
                    if j < i {
                        assert(parts[j] == parts_before[j]);
                        assert(parts_before[j].contains(p));
                    }
                    if k < i && parts[k].contains(p) {
                        assert(parts[k] == parts_before[k]);
                        assert(parts_before[k].contains(p));
                    }
                }
            }
            i += 1;
        }
        let ghost moved = map@;
        let mut j: usize = 0;
        while j < self.values.len()
            invariant
                0 <= j <= self.values@.len() == before.values@.len(),
                moved == map@,
                moved.len() == locals.len(),
                refer_below(before.values@, locals.len()),
                *self == (HashObject {
                    local_objects: self.local_objects,
                    values: self.values,
                    ..before
                }),
                self.local_objects@.len() == 0,
                forall|k: int|
                    0 <= k < j ==> #[trigger] self.values@[k] == moved_value(
                        before.values@[k],
                        moved,
                    ),
                forall|k: int|
                    j <= k < before.values@.len() ==> #[trigger] self.values@[k]
                        == before.values@[k],
            decreases self.values@.len() - j,
        {
            assert(self.values@[j as int] == before.values@[j as int]);
            if let Value::Heap(k) = self.values[j] {
                self.values[j] = Value::Heap(map[k as usize]);
            }
            j += 1;
        }
        let n: usize = self.pairs.len();
        let ghost entries = pair_map_entries(before.pairs);
        let mut j: usize = 0;
        while j < n
            invariant
                0 <= j <= n == entries.len() == pair_map_entries(self.pairs).len(),
                entries == pair_map_entries(before.pairs),
                moved == map@,
                moved.len() == locals.len(),
                refer_below(pair_values(entries), locals.len()),
                self.values@.len() == before.values@.len(),
                *self == (HashObject {
                    local_objects: self.local_objects,
                    values: self.values,
                    pairs: self.pairs,
                    ..before
                }),
                self.local_objects@.len() == 0,
                forall|k: int|
                    0 <= k < before.values@.len() ==> #[trigger] self.values@[k] == moved_value(
                        before.values@[k],
                        moved,
                    ),
                forall|k: int|
                    0 <= k < j ==> #[trigger] pair_map_entries(self.pairs)[k] == (
                        entries[k].0,
                        moved_value(entries[k].1, moved),
                    ),
                forall|k: int|
                    j <= k < n ==> #[trigger] pair_map_entries(self.pairs)[k] == entries[k],
            decreases n - j,
        {
            assert(pair_map_entries(self.pairs)[j as int] == entries[j as int]);
            assert(pair_values(entries)[j as int] == entries[j as int].1);
            if let Value::Heap(k) = self.pairs.entry_at(j).1 {
                self.pairs.set_at(j, Value::Heap(map[k as usize]));
            }
            j += 1;
        }
        proof {
            let done = relocated(view, moved);
            assert(hash_view(*self).values =~= done.values);
            assert(hash_view(*self).pairs =~= done.pairs);
            assert(hash_view(*self).local_objects =~= done.local_objects);
            assert(hash_view(*self) =~= done);
            let places = Set::new(
                |p: u32| moved.contains(p) || in_part(parts, locals.len() as int, p),
            );
            assert(is_laid_out(view, done, start, *heap, places, moved, parts));
            assert(is_migrated(view, hash_view(*self), start, *heap, places));
        }
    }
}

} // verus!
