//! Hash objects: ordered tables of properties with slots for named ones.
use std::rc::Rc;

use indexmap::IndexMap;
use vstd::prelude::*;

use crate::intern::{intern, intern_rc, Interner};
use crate::key::{
    is_canonical, law_same_key_symmetric, law_same_key_transitive, same_key, HashKey,
};
use crate::names::{word_index_entries, NameMap, WordIndex};
use crate::object::{
    copy_functions, function_table_view, object_view, objects_view, CompiledFunctionObject, FunctionTable,
    FunctionView, Object, ObjectView,
};
use crate::names::Names;
use crate::realm::Realm;
use crate::value::Value;

verus! {

/// An insertion-ordered hash map from keys to values.
#[verifier::external_body]
#[derive(Debug)]
pub struct PairMap {
    map: IndexMap<HashKey, Value>,
}

/// The entries of a `PairMap`, in order.
pub uninterp spec fn pair_map_entries(m: PairMap) -> Seq<(HashKey, Value)>;

/// No entries.
pub open spec fn no_pairs() -> Seq<(HashKey, Value)> {
    Seq::empty()
}

/// Whether the key at position `i` is the only one that is the same as `key`.
pub open spec fn only_match(pairs: Seq<(HashKey, Value)>, key: HashKey, i: int) -> bool {
    &&& 0 <= i < pairs.len()
    &&& same_key(pairs[i].0, key)
    &&& forall|j: int|
        0 <= j < pairs.len() && j != i ==> !same_key((#[trigger] pairs[j]).0, key)
}

/// Whether no key is the same as `key`.
pub open spec fn no_match(pairs: Seq<(HashKey, Value)>, key: HashKey) -> bool {
    forall|j: int| 0 <= j < pairs.len() ==> !same_key((#[trigger] pairs[j]).0, key)
}

impl PairMap {
    /// Calls `IndexMap::new`: the map is empty.
    #[verifier::external_body]
    pub(crate) fn new() -> (m: Self)
        ensures
            pair_map_entries(m) == no_pairs(),
    {
        PairMap { map: IndexMap::new() }
    }

    /// Calls `IndexMap::len`: the number of entries.
    #[verifier::external_body]
    pub(crate) fn len(&self) -> (n: usize)
        ensures
            n == pair_map_entries(*self).len(),
    {
        self.map.len()
    }

    /// Calls `IndexMap::get_index_of`: the position of a key that is the same
    /// as `key`, and none exactly when there is no such key. Rests on keys that
    /// are the same hashing alike.
    #[verifier::external_body]
    pub(crate) fn position(&self, key: &HashKey) -> (r: Option<usize>)
        ensures
            match r {
                Some(i) => i < pair_map_entries(*self).len() && same_key(
                    pair_map_entries(*self)[i as int].0,
                    *key,
                ),
                None => no_match(pair_map_entries(*self), *key),
            },
    {
        self.map.get_index_of(key)
    }

    /// Calls `IndexMap::get_index`: the key and the value at a position. No other
    /// key of the map is the same. Rests on keys that are the same hashing alike.
    #[verifier::external_body]
    pub(crate) fn entry_at(&self, i: usize) -> (e: (&HashKey, Value))
        requires
            i < pair_map_entries(*self).len(),
        ensures
            *e.0 == pair_map_entries(*self)[i as int].0,
            e.1 == pair_map_entries(*self)[i as int].1,
            only_match(pair_map_entries(*self), *e.0, i as int),
    {
        let (key, value) = self.map.get_index(i).unwrap();
        (key, *value)
    }

    /// Calls `IndexMap`'s `index_mut` at a position: the value there is
    /// replaced, its key and every other entry stay.
    #[verifier::external_body]
    pub(crate) fn set_at(&mut self, i: usize, value: Value)
        requires
            i < pair_map_entries(*old(self)).len(),
        ensures
            pair_map_entries(*final(self)) == pair_map_entries(*old(self)).update(
                i as int,
                (pair_map_entries(*old(self))[i as int].0, value),
            ),
    {
        self.map[i] = value;
    }

    /// Calls `IndexMap::insert`: a key that is not there is added at the end;
    /// where one key is the same, that key stays and takes the new value.
    #[verifier::external_body]
    pub(crate) fn insert(&mut self, key: HashKey, value: Value)
        ensures
            no_match(pair_map_entries(*old(self)), key) ==> pair_map_entries(*final(self))
                == pair_map_entries(*old(self)).push((key, value)),
            forall|i: int|
                only_match(pair_map_entries(*old(self)), key, i) ==> #[trigger] pair_map_entries(
                    *old(self),
                ).update(i, (pair_map_entries(*old(self))[i].0, value)) == pair_map_entries(
                    *final(self),
                ),
    {
        self.map.insert(key, value);
    }

    /// Calls `IndexMap::shift_remove`: the entry whose key is the same as `key`
    /// is taken out and the entries after it move up one place; where there is
    /// none, nothing changes.
    #[verifier::external_body]
    pub(crate) fn shift_remove(&mut self, key: &HashKey) -> (r: Option<Value>)
        ensures
            no_match(pair_map_entries(*old(self)), *key) ==> r is None && pair_map_entries(
                *final(self),
            ) == pair_map_entries(*old(self)),
            forall|i: int| #[trigger]
                only_match(pair_map_entries(*old(self)), *key, i) ==> r == Some(
                    pair_map_entries(*old(self))[i].1,
                ) && pair_map_entries(*final(self)) == pair_map_entries(*old(self)).remove(i),
    {
        self.map.shift_remove(key)
    }
}

#[derive(Debug)]
pub struct HashObject {
    pub id: u64,
    pub shape_version: u32,
    pub pairs: PairMap,
    pub values: Vec<Value>,
    /// The slot of each named property, by symbol.
    pub str_slots: WordIndex,
    /// True when `values` has been updated without syncing the corresponding
    /// entries in `pairs`. Call `sync_pairs_if_dirty()` before reading values
    /// from `pairs`.
    pub pairs_dirty: bool,
    /// Backing store for heap values created outside the main heap, such as
    /// the builtin globals that the compilers construct.
    pub local_objects: Vec<Object>,
    /// Getter functions defined on this object.
    pub getters: Option<Box<FunctionTable>>,
    /// Setter functions defined on this object.
    pub setters: Option<Box<FunctionTable>>,
    /// True when the object was frozen.
    pub frozen: bool,
}

/// What a hash object holds.
#[verifier::ext_equal]
pub struct HashView {
    pub id: u64,
    pub shape_version: u32,
    pub pairs: Seq<(HashKey, Value)>,
    pub values: Seq<Value>,
    pub slots: Map<u64, usize>,
    pub pairs_dirty: bool,
    pub local_objects: Seq<ObjectView>,
    pub getters: Option<Names<FunctionView>>,
    pub setters: Option<Names<FunctionView>>,
    pub frozen: bool,
}

pub open spec fn hash_view(h: HashObject) -> HashView
    decreases h,
{
    HashView {
        id: h.id,
        shape_version: h.shape_version,
        pairs: pair_map_entries(h.pairs),
        values: h.values@,
        slots: word_index_entries(h.str_slots),
        pairs_dirty: h.pairs_dirty,
        local_objects: objects_view(h.local_objects),
        getters: match h.getters {
            Some(t) => Some(function_table_view(*t)),
            None => None,
        },
        setters: match h.setters {
            Some(t) => Some(function_table_view(*t)),
            None => None,
        },
        frozen: h.frozen,
    }
}

/// The shape version after `v`. Zero is never used.
pub open spec fn next_shape(v: u32) -> u32 {
    if v == u32::MAX {
        1
    } else {
        (v + 1) as u32
    }
}

impl HashView {
    /// A hash without properties.
    pub open spec fn empty(id: u64) -> Self {
        HashView {
            id,
            shape_version: 1,
            pairs: Seq::empty(),
            values: Seq::empty(),
            slots: Map::empty(),
            pairs_dirty: false,
            local_objects: Seq::empty(),
            getters: None,
            setters: None,
            frozen: false,
        }
    }

    /// Keys are distinct and in canonical form, each has a slot, the slots of
    /// named ones are filed by symbol, and the values in `pairs` are current
    /// unless marked stale.
    pub open spec fn wf(self) -> bool {
        &&& self.values.len() == self.pairs.len()
        &&& self.shape_version != 0
        &&& forall|i: int| 0 <= i < self.pairs.len() ==> is_canonical((#[trigger] self.pairs[i]).0)
        &&& forall|i: int, j: int|
            0 <= i < self.pairs.len() && 0 <= j < self.pairs.len() && i != j ==> !same_key(
                (#[trigger] self.pairs[i]).0,
                (#[trigger] self.pairs[j]).0,
            )
        &&& forall|i: int|
            0 <= i < self.pairs.len() ==> match (#[trigger] self.pairs[i]).0 {
                HashKey::Sym(sym) => self.slots.dom().contains(sym as u64)
                    && self.slots[sym as u64] == i,
                _ => true,
            }
        &&& forall|w: u64| #[trigger]
            self.slots.dom().contains(w) ==> w <= u32::MAX && self.slots[w] < self.pairs.len()
                && self.pairs[self.slots[w] as int].0 == HashKey::Sym(w as u32)
        &&& !self.pairs_dirty ==> forall|i: int|
            0 <= i < self.pairs.len() ==> (#[trigger] self.pairs[i]).1 == self.values[i]
    }

    /// The slot of a key, if it has one.
    pub open spec fn slot_of(self, key: HashKey) -> Option<int> {
        if exists|i: int| 0 <= i < self.pairs.len() && same_key((#[trigger] self.pairs[i]).0, key) {
            Some(choose|i: int|
                0 <= i < self.pairs.len() && same_key((#[trigger] self.pairs[i]).0, key))
        } else {
            None
        }
    }

    /// The keys, in order.
    pub open spec fn keys(self) -> Seq<HashKey> {
        Seq::new(self.pairs.len(), |i: int| self.pairs[i].0)
    }

    /// The value of a property.
    pub open spec fn value_of(self, key: HashKey) -> Option<Value> {
        match self.slot_of(key) {
            Some(i) => Some(self.values[i]),
            None => None,
        }
    }

    /// The hash with a property set: an existing one keeps its slot, a new one
    /// is added at the end and changes the shape.
    pub open spec fn with(self, key: HashKey, value: Value) -> Self {
        match self.slot_of(key) {
            Some(i) => HashView {
                values: self.values.update(i, value),
                pairs: self.pairs.update(i, (self.pairs[i].0, value)),
                ..self
            },
            None => HashView {
                values: self.values.push(value),
                pairs: self.pairs.push((key, value)),
                slots: match key {
                    HashKey::Sym(sym) => self.slots.insert(sym as u64, self.values.len() as usize),
                    _ => self.slots,
                },
                shape_version: next_shape(self.shape_version),
                ..self
            },
        }
    }

    /// The pairs with their values brought up to date.
    pub open spec fn current_pairs(self) -> Seq<(HashKey, Value)> {
        if self.pairs_dirty {
            Seq::new(
                self.pairs.len(),
                |i: int|
                    (
                        self.pairs[i].0,
                        if i < self.values.len() {
                            self.values[i]
                        } else {
                            self.pairs[i].1
                        },
                    ),
            )
        } else {
            self.pairs
        }
    }

    /// The hash with its pairs brought up to date.
    pub open spec fn synced(self) -> Self {
        HashView { pairs: self.current_pairs(), pairs_dirty: false, ..self }
    }

    /// Whether `self` is `before` without the property at slot `i`: the other
    /// properties keep their order, and those after it move up one slot.
    pub open spec fn is_without(self, before: Self, i: int) -> bool {
        &&& self.pairs == before.synced().pairs.remove(i)
        &&& self.values == before.values.remove(i)
        &&& self.shape_version == next_shape(before.shape_version)
        &&& self.id == before.id
        &&& self.pairs_dirty == false
        &&& self.local_objects == before.local_objects
        &&& self.getters == before.getters
        &&& self.setters == before.setters
        &&& self.frozen == before.frozen
    }

    /// The value that stands for an object in this hash: simple objects in
    /// place, others as the next local object.
    pub open spec fn value_for(self, obj: ObjectView) -> Value {
        match obj {
            ObjectView::Integer(v) => Value::Int(v),
            ObjectView::Float(bits) => Value::Float(bits),
            ObjectView::Boolean(v) => Value::Bool(v),
            ObjectView::Null => Value::Null,
            ObjectView::Undefined => Value::Undefined,
            _ => Value::Heap(self.local_objects.len() as u32),
        }
    }

    /// The hash with a property set to an object.
    pub open spec fn with_object(self, key: HashKey, obj: ObjectView) -> Self {
        let stored = HashView {
            local_objects: if self.value_for(obj) is Heap {
                self.local_objects.push(obj)
            } else {
                self.local_objects
            },
            ..self
        };
        stored.with(key, self.value_for(obj))
    }
}

/// Setting a property keeps a hash well formed.
pub proof fn law_with_keeps_well_formed(h: HashView, key: HashKey, value: Value)
    requires
        h.wf(),
        h.values.len() < usize::MAX,
        is_canonical(key),
    ensures
        h.with(key, value).wf(),
{
    let after = h.with(key, value);
    assert forall|a: int| 0 <= a < after.pairs.len() implies is_canonical(
        (#[trigger] after.pairs[a]).0,
    ) by {
        if a < h.pairs.len() {
            assert(after.pairs[a].0 == h.pairs[a].0);
        }
    }
    match h.slot_of(key) {
        Some(i) => {
            assert forall|a: int, b: int|
                0 <= a < after.pairs.len() && 0 <= b < after.pairs.len() && a
                    != b implies !same_key(
                (#[trigger] after.pairs[a]).0,
                (#[trigger] after.pairs[b]).0,
            ) by {
                assert(after.pairs[a].0 == h.pairs[a].0 && after.pairs[b].0 == h.pairs[b].0);
            }
            assert forall|a: int| 0 <= a < after.pairs.len() implies match (
            #[trigger] after.pairs[a]).0 {
                HashKey::Sym(sym) => after.slots.dom().contains(sym as u64)
                    && after.slots[sym as u64] == a,
                _ => true,
            } by {
                assert(h.pairs[a].0 == after.pairs[a].0);
            }
        },
        None => {
            let n = h.pairs.len() as int;
            assert forall|a: int, b: int|
                0 <= a < after.pairs.len() && 0 <= b < after.pairs.len() && a
                    != b implies !same_key(
                (#[trigger] after.pairs[a]).0,
                (#[trigger] after.pairs[b]).0,
            ) by {
                if a < n {
                    assert(after.pairs[a] == h.pairs[a]);
                }
                if b < n {
                    assert(after.pairs[b] == h.pairs[b]);
                }
                if a == n {
                    assert(!same_key(h.pairs[b].0, key));
                    law_same_key_symmetric(h.pairs[b].0, key);
                }
            }
            assert forall|a: int| 0 <= a < after.pairs.len() implies match (
            #[trigger] after.pairs[a]).0 {
                HashKey::Sym(sym) => after.slots.dom().contains(sym as u64)
                    && after.slots[sym as u64] == a,
                _ => true,
            } by {
                if a < n {
                    assert(h.pairs[a].0 == after.pairs[a].0);
                    assert(!same_key(h.pairs[a].0, key));
                }
            }
            assert forall|w: u64| #[trigger] after.slots.dom().contains(w) implies w <= u32::MAX
                && after.slots[w] < after.pairs.len() && after.pairs[after.slots[w] as int].0
                == HashKey::Sym(w as u32) by {
                if h.slots.dom().contains(w) {
                    assert(h.pairs[h.slots[w] as int].0 == HashKey::Sym(w as u32));
                    assert(!same_key(h.pairs[h.slots[w] as int].0, key));
                }
            }
            assert(!after.pairs_dirty ==> forall|a: int|
                0 <= a < after.pairs.len() ==> (#[trigger] after.pairs[a]).1 == after.values[a])
                by {
                assert forall|a: int| !after.pairs_dirty && 0 <= a < after.pairs.len() implies (
                #[trigger] after.pairs[a]).1 == after.values[a] by {
                    if a < n {
                        assert(after.pairs[a] == h.pairs[a]);
                    }
                }
            }
        },
    }
}

impl HashObject {
    pub open spec fn wf(self) -> bool {
        hash_view(self).wf()
    }

    pub fn new(realm: &mut Realm) -> (h: Self)
        ensures
            hash_view(h) == HashView::empty(old(realm)@.next_object_id),
            final(realm)@ == old(realm)@.after_id(),
            h.wf(),
    {
        let h = HashObject {
            id: realm.fresh_object_id(),
            shape_version: 1,
            pairs: PairMap::new(),
            values: Vec::new(),
            str_slots: WordIndex::new(),
            pairs_dirty: false,
            local_objects: Vec::new(),
            getters: None,
            setters: None,
            frozen: false,
        };
        assert(objects_view(h.local_objects) =~= Seq::empty());
        assert(hash_view(h) =~= HashView::empty(old(realm)@.next_object_id));
        h
    }

    /// A hash with room for `capacity` properties.
    pub fn with_capacity(realm: &mut Realm, capacity: usize) -> (h: Self)
        ensures
            hash_view(h) == HashView::empty(old(realm)@.next_object_id),
            final(realm)@ == old(realm)@.after_id(),
            h.wf(),
    {
        let h = HashObject {
            id: realm.fresh_object_id(),
            shape_version: 1,
            pairs: PairMap::new(),
            values: Vec::with_capacity(capacity),
            str_slots: WordIndex::new(),
            pairs_dirty: false,
            local_objects: Vec::new(),
            getters: None,
            setters: None,
            frozen: false,
        };
        assert(objects_view(h.local_objects) =~= Seq::empty());
        assert(hash_view(h) =~= HashView::empty(old(realm)@.next_object_id));
        h
    }

    /// A copy with the same properties. Arrays, hashes and the like among the
    /// local objects stay shared.
    pub(crate) fn copy(&self) -> (h: Self)
        ensures
            hash_view(h) == hash_view(*self),
    {
        let values = self.values.clone();
        assert(values@ =~= self.values@);
        let mut pairs = PairMap::new();
        let n: usize = self.pairs.len();
        let ghost entries = pair_map_entries(self.pairs);
        let mut i: usize = 0;
        while i < n
            invariant
                0 <= i <= n == entries.len(),
                entries == pair_map_entries(self.pairs),
                pair_map_entries(pairs) =~= entries.take(i as int),
            decreases n - i,
        {
            let (key, value) = self.pairs.entry_at(i);
            assert(no_match(entries.take(i as int), *key));
            pairs.insert(key.copy(), value);
            i += 1;
        }
        let mut local_objects: Vec<Object> = Vec::new();
        let count: usize = self.local_objects.len();
        let mut k: usize = 0;
        while k < count
            invariant
                0 <= k <= count == self.local_objects@.len(),
                local_objects@.len() == k,
                forall|j: int|
                    0 <= j < k ==> object_view(#[trigger] local_objects@[j]) == object_view(
                        self.local_objects@[j],
                    ),
            decreases count - k,
        {
            local_objects.push(self.local_objects[k].dup());
            k += 1;
        }
        assert(objects_view(local_objects) =~= objects_view(self.local_objects));
        HashObject {
            id: self.id,
            shape_version: self.shape_version,
            pairs,
            values,
            str_slots: self.str_slots.copy(),
            pairs_dirty: self.pairs_dirty,
            local_objects,
            getters: copy_accessors(&self.getters),
            setters: copy_accessors(&self.setters),
            frozen: self.frozen,
        }
    }

    pub fn bump_shape_version(&mut self)
        ensures
            hash_view(*final(self)) == (HashView {
                shape_version: next_shape(old(self).shape_version),
                ..hash_view(*old(self))
            }),
    {
        self.shape_version = self.shape_version.wrapping_add(1);
        if self.shape_version == 0 {
            self.shape_version = 1;
        }
    }

    /// Set a property. Returns whether it is new.
    pub fn insert_pair(&mut self, key: HashKey, value: Value) -> (is_new: bool)
        requires
            old(self).wf(),
            old(self).values@.len() < usize::MAX,
            is_canonical(key),
        ensures
            hash_view(*final(self)) == hash_view(*old(self)).with(key, value),
            is_new == (hash_view(*old(self)).slot_of(key) is None),
            final(self).wf(),
    {
        let ghost before = hash_view(*self);
        let ghost k = key;
        proof {
            law_with_keeps_well_formed(before, key, value);
        }
        let found: Option<usize> = match &key {
            HashKey::Sym(id) => match self.str_slots.get(*id as u64) {
                Some(slot) => Some(slot),
                None => self.pairs.position(&key),
            },
            _ => self.pairs.position(&key),
        };
        match found {
            Some(slot) => {
                proof {
                    lemma_slot_is_unique(before, k, slot as int);
                }
                self.values[slot] = value;
                self.pairs.set_at(slot, value);
                assert(hash_view(*self) =~= before.with(k, value));
                false
            },
            None => {
                assert(before.slot_of(k) is None);
                let sym: Option<u32> = match &key {
                    HashKey::Sym(id) => Some(*id),
                    _ => None,
                };
                self.pairs.insert(key, value);
                self.values.push(value);
                if let Some(id) = sym {
                    self.str_slots.insert(id as u64, self.values.len() - 1);
                }
                self.bump_shape_version();
                assert(hash_view(*self) =~= before.with(k, value));
                true
            },
        }
    }

    /// Bring the values in `pairs` up to date.
    pub fn sync_pairs(&mut self)
        ensures
            hash_view(*final(self)) == hash_view(*old(self)).synced(),
            old(self).wf() ==> final(self).wf(),
    {
        let ghost before = hash_view(*self);
        if !self.pairs_dirty {
            assert(before.synced() =~= before);
            return ;
        }
        let n: usize = self.pairs.len();
        let mut i: usize = 0;
        while i < n
            invariant
                before == hash_view(*old(self)),
                before.pairs_dirty,
                0 <= i <= n,
                n == before.pairs.len(),
                hash_view(*self) == (HashView { pairs: pair_map_entries(self.pairs), ..before }),
                pair_map_entries(self.pairs).len() == n,
                forall|k: int|
                    0 <= k < i ==> #[trigger] pair_map_entries(self.pairs)[k]
                        == before.current_pairs()[k],
                forall|k: int|
                    i <= k < n ==> #[trigger] pair_map_entries(self.pairs)[k] == before.pairs[k],
            decreases n - i,
        {
            if i < self.values.len() {
                self.pairs.set_at(i, self.values[i]);
            }
            i += 1;
        }
        self.pairs_dirty = false;
        assert(pair_map_entries(self.pairs) =~= before.current_pairs());
        assert(hash_view(*self) =~= before.synced());
        proof {
            if before.wf() {
                lemma_synced_wf(before);
            }
        }
    }

    /// Bring the values in `pairs` up to date if they are stale.
    pub fn sync_pairs_if_dirty(&mut self)
        ensures
            hash_view(*final(self)) == hash_view(*old(self)).synced(),
            old(self).wf() ==> final(self).wf(),
    {
        if self.pairs_dirty {
            self.sync_pairs();
        } else {
            assert(hash_view(*self).synced() =~= hash_view(*self));
        }
    }

    /// Take a property out and return its value. The properties after it move
    /// up one slot.
    pub fn remove_pair(&mut self, key: &HashKey) -> (r: Option<Value>)
        requires
            old(self).wf(),
            is_canonical(*key),
        ensures
            final(self).wf(),
            match hash_view(*old(self)).slot_of(*key) {
                None => r is None && hash_view(*final(self)) == hash_view(*old(self)),
                Some(slot) => r == Some(hash_view(*old(self)).values[slot]) && hash_view(
                    *final(self),
                ).is_without(hash_view(*old(self)), slot),
            },
    {
        let ghost before = hash_view(*self);
        let slot: usize = match self.pairs.position(key) {
            Some(slot) => slot,
            None => {
                return None;
            },
        };
        proof {
            lemma_slot_is_unique(before, *key, slot as int);
        }
        self.sync_pairs_if_dirty();
        let ghost synced = hash_view(*self);
        proof {
            assert forall|j: int| 0 <= j < synced.pairs.len() implies (#[trigger] synced.pairs[j]).0
                == before.pairs[j].0 by {}
            assert(only_match(synced.pairs, *key, slot as int));
        }
        let removed = self.pairs.shift_remove(key);
        self.values.remove(slot);
        let mut slots = WordIndex::new();
        let n: usize = self.pairs.len();
        let mut i: usize = 0;
        let ghost rest = synced.pairs.remove(slot as int);
        assert(pair_map_entries(self.pairs) == rest);
        assert forall|a: int, b: int|
            0 <= a < rest.len() && 0 <= b < rest.len() && a != b implies !same_key(
            (#[trigger] rest[a]).0,
            (#[trigger] rest[b]).0,
        ) by {
            let a0 = if a < slot {
                a
            } else {
                a + 1
            };
            let b0 = if b < slot {
                b
            } else {
                b + 1
            };
            assert(rest[a] == synced.pairs[a0] && rest[b] == synced.pairs[b0]);
        }
        while i < n
            invariant
                0 <= i <= n,
                n == rest.len(),
                pair_map_entries(self.pairs) == rest,
                forall|a: int, b: int|
                    0 <= a < rest.len() && 0 <= b < rest.len() && a != b ==> !same_key(
                        (#[trigger] rest[a]).0,
                        (#[trigger] rest[b]).0,
                    ),
                forall|k: int|
                    0 <= k < i ==> match (#[trigger] rest[k]).0 {
                        HashKey::Sym(sym) => word_index_entries(slots).dom().contains(sym as u64)
                            && word_index_entries(slots)[sym as u64] == k,
                        _ => true,
                    },
                forall|w: u64| #[trigger]
                    word_index_entries(slots).dom().contains(w) ==> w <= u32::MAX
                        && word_index_entries(slots)[w] < i
                        && rest[word_index_entries(slots)[w] as int].0 == HashKey::Sym(w as u32),
            decreases n - i,
        {
            let ghost filed = word_index_entries(slots);
            if let HashKey::Sym(id) = self.pairs.entry_at(i).0 {
                let id: u32 = *id;
                slots.insert(id as u64, i);
                assert forall|k: int| 0 <= k < i + 1 implies match (#[trigger] rest[k]).0 {
                    HashKey::Sym(sym) => word_index_entries(slots).dom().contains(sym as u64)
                        && word_index_entries(slots)[sym as u64] == k,
                    _ => true,
                } by {
                    if k < i {
                        assert(!same_key(rest[k].0, rest[i as int].0));
                    }
                }
            }
            i += 1;
        }
        self.str_slots = slots;
        self.bump_shape_version();
        let ghost after = hash_view(*self);
        assert(after.values =~= before.values.remove(slot as int));
        assert forall|k: int| !after.pairs_dirty && 0 <= k < after.pairs.len() implies (
        #[trigger] after.pairs[k]).1 == after.values[k] by {
            let k0 = if k < slot {
                k
            } else {
                k + 1
            };
            assert(after.pairs[k] == synced.pairs[k0]);
        }
        removed
    }

    /// The value at a slot, if there is such a slot.
    pub fn get_value_at_slot(&self, slot: usize) -> (r: Option<Value>)
        ensures
            r == (if slot < self.values@.len() {
                Some(self.values@[slot as int])
            } else {
                None
            }),
    {
        if slot < self.values.len() {
            Some(self.values[slot])
        } else {
            None
        }
    }

    /// The value at a slot that is known to exist.
    pub fn get_value_at_slot_unchecked(&self, slot: usize) -> (r: Value)
        requires
            slot < self.values@.len(),
        ensures
            r == self.values@[slot as int],
    {
        self.values[slot]
    }

    /// Write to a slot that is known to exist. Leaves `pairs` stale.
    pub fn set_value_at_slot_unchecked(&mut self, slot: usize, value: Value)
        requires
            slot < old(self).values@.len(),
        ensures
            hash_view(*final(self)) == (HashView {
                values: hash_view(*old(self)).values.update(slot as int, value),
                pairs_dirty: true,
                ..hash_view(*old(self))
            }),
            old(self).wf() ==> final(self).wf(),
    {
        self.values[slot] = value;
        self.pairs_dirty = true;
    }

    /// The keys, in order.
    pub fn ordered_keys(&self) -> (keys: Vec<HashKey>)
        ensures
            keys@ == hash_view(*self).keys(),
    {
        let mut keys: Vec<HashKey> = Vec::new();
        let n: usize = self.pairs.len();
        let mut i: usize = 0;
        while i < n
            invariant
                0 <= i <= n,
                n == pair_map_entries(self.pairs).len(),
                keys@ =~= hash_view(*self).keys().take(i as int),
            decreases n - i,
        {
            keys.push(self.pairs.entry_at(i).0.copy());
            i += 1;
        }
        keys
    }

    /// The keys, in order.
    pub fn ordered_keys_ref(&self) -> (keys: Vec<HashKey>)
        ensures
            keys@ == hash_view(*self).keys(),
    {
        self.ordered_keys()
    }

    /// The value of a named property, by symbol.
    pub fn get_by_sym(&self, sym: u32) -> (r: Option<Value>)
        requires
            self.wf(),
        ensures
            r == hash_view(*self).value_of(HashKey::Sym(sym)),
    {
        let ghost h = hash_view(*self);
        match self.str_slots.get(sym as u64) {
            Some(slot) => {
                proof {
                    lemma_slot_is_unique(h, HashKey::Sym(sym), slot as int);
                }
                Some(self.values[slot])
            },
            None => None,
        }
    }

    /// The value of a named property.
    pub fn get_by_str(&self, table: &mut Interner, s: &str) -> (r: Option<Value>)
        requires
            self.wf(),
        ensures
            r == hash_view(*self).value_of(HashKey::Sym(old(table)@.id_of(s@))),
            final(table)@ == old(table)@.with(s@),
    {
        let sym: u32 = intern(table, s);
        self.get_by_sym(sym)
    }

    /// The value of a named property.
    pub fn get_value_by_str(&self, table: &mut Interner, s: &str) -> (r: Option<Value>)
        requires
            self.wf(),
        ensures
            r == hash_view(*self).value_of(HashKey::Sym(old(table)@.id_of(s@))),
            final(table)@ == old(table)@.with(s@),
    {
        self.get_by_str(table, s)
    }

    /// Whether there is a property of that name.
    pub fn contains_str(&self, table: &mut Interner, s: &str) -> (r: bool)
        requires
            self.wf(),
        ensures
            r == (hash_view(*self).slot_of(HashKey::Sym(old(table)@.id_of(s@))) is Some),
            final(table)@ == old(table)@.with(s@),
    {
        let sym: u32 = intern(table, s);
        self.get_by_sym(sym).is_some()
    }

    /// Set a named property, by symbol, unless the hash is frozen.
    pub fn set_by_sym(&mut self, sym: u32, value: Value)
        requires
            old(self).wf(),
            old(self).values@.len() < usize::MAX,
        ensures
            final(self).wf(),
            hash_view(*final(self)) == (if old(self).frozen {
                hash_view(*old(self))
            } else {
                hash_view(*old(self)).with(HashKey::Sym(sym), value)
            }),
    {
        if self.frozen {
            return ;
        }
        self.insert_pair(HashKey::Sym(sym), value);
    }

    /// Set a named property, whether or not the hash is frozen.
    pub fn set_by_str(&mut self, table: &mut Interner, s: Rc<String>, value: Value)
        requires
            old(self).wf(),
            old(self).values@.len() < usize::MAX,
        ensures
            final(self).wf(),
            hash_view(*final(self)) == hash_view(*old(self)).with(
                HashKey::Sym(old(table)@.id_of(s@)),
                value,
            ),
            final(table)@ == old(table)@.with(s@),
    {
        let sym: u32 = intern_rc(table, &s);
        self.insert_pair(HashKey::Sym(sym), value);
    }

    /// Whether any getter or setter is defined.
    pub fn has_accessors(&self) -> (r: bool)
        ensures
            r == (self.getters is Some || self.setters is Some),
    {
        self.getters.is_some() || self.setters.is_some()
    }

    /// The getter of that name.
    pub fn get_getter(&self, name: &str) -> (r: Option<&CompiledFunctionObject>)
        ensures
            match r {
                Some(f) => self.getters matches Some(t) && t@.get(name@) == Some(*f),
                None => self.getters matches Some(t) ==> t@.get(name@) is None,
            },
    {
        match &self.getters {
            Some(t) => t.get(name),
            None => None,
        }
    }

    /// The setter of that name.
    pub fn get_setter(&self, name: &str) -> (r: Option<&CompiledFunctionObject>)
        ensures
            match r {
                Some(f) => self.setters matches Some(t) && t@.get(name@) == Some(*f),
                None => self.setters matches Some(t) ==> t@.get(name@) is None,
            },
    {
        match &self.setters {
            Some(t) => t.get(name),
            None => None,
        }
    }

    /// Define a getter.
    pub fn define_getter(&mut self, name: String, func: CompiledFunctionObject)
        ensures
            final(self).getters matches Some(t) && t@ == accessor_names(old(self).getters).set(
                name@,
                func,
            ),
            hash_view(*final(self)) == (HashView {
                getters: hash_view(*final(self)).getters,
                ..hash_view(*old(self))
            }),
    {
        let mut table = match self.getters.take() {
            Some(t) => *t,
            None => NameMap::new(),
        };
        table.insert(name, func);
        self.getters = Some(Box::new(table));
    }

    /// Define a setter.
    pub fn define_setter(&mut self, name: String, func: CompiledFunctionObject)
        ensures
            final(self).setters matches Some(t) && t@ == accessor_names(old(self).setters).set(
                name@,
                func,
            ),
            hash_view(*final(self)) == (HashView {
                setters: hash_view(*final(self)).setters,
                ..hash_view(*old(self))
            }),
    {
        let mut table = match self.setters.take() {
            Some(t) => *t,
            None => NameMap::new(),
        };
        table.insert(name, func);
        self.setters = Some(Box::new(table));
    }

    /// Set a property to an object. Simple objects are held in place; others
    /// are stored in `local_objects` and referred to by position. For use
    /// where no heap is available, such as the compilers' builtin globals.
    pub fn insert_pair_obj(&mut self, key: HashKey, obj: Object)
        requires
            old(self).wf(),
            old(self).values@.len() < usize::MAX,
            is_canonical(key),
        ensures
            hash_view(*final(self)) == hash_view(*old(self)).with_object(key, object_view(obj)),
            final(self).wf(),
    {
        let ghost before = hash_view(*self);
        let ghost view = object_view(obj);
        let value = match obj {
            Object::Integer(v) => Value::Int(v),
            Object::Float(bits) => Value::Float(bits),
            Object::Boolean(v) => Value::Bool(v),
            Object::Null => Value::Null,
            Object::Undefined => Value::Undefined,
            _ => {
                let position: u32 = self.local_objects.len() as u32;
                let ghost objects = self.local_objects;
                self.local_objects.push(obj);
                assert(objects_view(self.local_objects) =~= objects_view(objects).push(view));
                Value::Heap(position)
            },
        };
        assert(value == before.value_for(view));
        assert(hash_view(*self).local_objects == (if value is Heap {
            before.local_objects.push(view)
        } else {
            before.local_objects
        }));
        self.insert_pair(key, value);
    }
}

/// A copy of a table that may not have been made yet.
fn copy_accessors(t: &Option<Box<FunctionTable>>) -> (r: Option<Box<FunctionTable>>)
    ensures
        match *t {
            Some(t) => r matches Some(r) && function_table_view(*r) == function_table_view(*t),
            None => r is None,
        },
{
    match t {
        Some(t) => Some(Box::new(copy_functions(&**t))),
        None => None,
    }
}

/// The functions of a table that may not have been made yet.
pub open spec fn accessor_names(t: Option<Box<FunctionTable>>) -> Names<CompiledFunctionObject> {
    match t {
        Some(t) => t@,
        None => Names::empty(),
    }
}

proof fn lemma_synced_wf(h: HashView)
    requires
        h.wf(),
    ensures
        h.synced().wf(),
{
    let s = h.synced();
    assert forall|i: int| 0 <= i < s.pairs.len() implies (#[trigger] s.pairs[i]).0
        == h.pairs[i].0 by {}
    assert forall|i: int, j: int|
        0 <= i < s.pairs.len() && 0 <= j < s.pairs.len() && i != j implies !same_key(
        (#[trigger] s.pairs[i]).0,
        (#[trigger] s.pairs[j]).0,
    ) by {
        assert(!same_key(h.pairs[i].0, h.pairs[j].0));
    }
    assert forall|i: int| 0 <= i < s.pairs.len() implies match (#[trigger] s.pairs[i]).0 {
        HashKey::Sym(sym) => s.slots.dom().contains(sym as u64) && s.slots[sym as u64] == i,
        _ => true,
    } by {
        assert(h.pairs[i].0 == s.pairs[i].0);
    }
}

/// At most one property has a key that is the same as `key`.
proof fn lemma_slot_is_unique(h: HashView, key: HashKey, slot: int)
    requires
        h.wf(),
        is_canonical(key),
        0 <= slot < h.pairs.len(),
        same_key(h.pairs[slot].0, key),
    ensures
        h.slot_of(key) == Some(slot),
        only_match(h.pairs, key, slot),
{
    assert forall|j: int| 0 <= j < h.pairs.len() && j != slot implies !same_key(
        (#[trigger] h.pairs[j]).0,
        key,
    ) by {
        if same_key(h.pairs[j].0, key) {
            law_same_key_symmetric(h.pairs[slot].0, key);
            law_same_key_transitive(h.pairs[j].0, key, h.pairs[slot].0);
        }
    }
}

/// A property that was set has that value; every other property keeps its own.
pub proof fn law_set_property_is_read_back(
    h: HashView,
    key: HashKey,
    value: Value,
    other: HashKey,
)
    requires
        h.wf(),
        h.values.len() < usize::MAX,
        is_canonical(key),
        is_canonical(other),
    ensures
        h.with(key, value).value_of(other) == (if same_key(other, key) {
            Some(value)
        } else {
            h.value_of(other)
        }),
{
    let after = h.with(key, value);
    law_with_keeps_well_formed(h, key, value);
    let slot = match h.slot_of(key) {
        Some(i) => i,
        None => h.pairs.len() as int,
    };
    law_same_key_symmetric(key, other);
    assert(same_key(after.pairs[slot].0, key)) by {
        law_same_key_symmetric(key, key);
    }
    if same_key(other, key) {
        law_same_key_transitive(after.pairs[slot].0, key, other);
        lemma_slot_is_unique(after, other, slot);
    } else {
        match h.slot_of(other) {
            Some(j) => {
                assert(j != slot) by {
                    if j == slot {
                        law_same_key_symmetric(h.pairs[j].0, other);
                        law_same_key_transitive(other, h.pairs[j].0, key);
                    }
                }
                assert(after.pairs[j].0 == h.pairs[j].0);
                lemma_slot_is_unique(after, other, j);
            },
            None => {
                assert forall|j: int| 0 <= j < after.pairs.len() implies !same_key(
                    (#[trigger] after.pairs[j]).0,
                    other,
                ) by {
                    if same_key(after.pairs[j].0, other) {
                        if j == slot {
                            law_same_key_symmetric(after.pairs[j].0, other);
                            law_same_key_transitive(other, after.pairs[j].0, key);
                        } else {
                            assert(after.pairs[j].0 == h.pairs[j].0);
                        }
                    }
                }
            },
        }
    }
}

/// A property that was taken out is gone; every other property keeps its value.
pub proof fn law_removed_property_is_gone(
    before: HashView,
    after: HashView,
    key: HashKey,
    slot: int,
    other: HashKey,
)
    requires
        before.wf(),
        after.wf(),
        is_canonical(key),
        is_canonical(other),
        before.slot_of(key) == Some(slot),
        after.is_without(before, slot),
    ensures
        after.value_of(other) == (if same_key(other, key) {
            None
        } else {
            before.value_of(other)
        }),
{
    let synced = before.synced().pairs;
    assert(0 <= slot < before.pairs.len() && same_key(before.pairs[slot].0, key));
    law_same_key_symmetric(key, other);
    assert forall|j: int| 0 <= j < after.pairs.len() implies (#[trigger] after.pairs[j]).0
        == before.pairs[if j < slot {
        j
    } else {
        j + 1
    }].0 && after.values[j] == before.values[if j < slot {
        j
    } else {
        j + 1
    }] by {
        assert(after.pairs[j] == synced[if j < slot {
            j
        } else {
            j + 1
        }]);
    }
    if same_key(other, key) {
        assert forall|j: int| 0 <= j < after.pairs.len() implies !same_key(
            (#[trigger] after.pairs[j]).0,
            other,
        ) by {
            let j0 = if j < slot {
                j
            } else {
                j + 1
            };
            if same_key(after.pairs[j].0, other) {
                law_same_key_transitive(before.pairs[j0].0, other, key);
                law_same_key_symmetric(before.pairs[slot].0, key);
                law_same_key_transitive(before.pairs[j0].0, key, before.pairs[slot].0);
            }
        }
    } else {
        match before.slot_of(other) {
            Some(j0) => {
                assert(j0 != slot) by {
                    if j0 == slot {
                        law_same_key_symmetric(before.pairs[j0].0, other);
                        law_same_key_transitive(other, before.pairs[j0].0, key);
                    }
                }
                let j = if j0 < slot {
                    j0
                } else {
                    j0 - 1
                };
                assert(after.pairs[j].0 == before.pairs[j0].0);
                lemma_slot_is_unique(after, other, j);
            },
            None => {
                assert forall|j: int| 0 <= j < after.pairs.len() implies !same_key(
                    (#[trigger] after.pairs[j]).0,
                    other,
                ) by {
                    assert(!same_key(
                        before.pairs[if j < slot {
                            j
                        } else {
                            j + 1
                        }].0,
                        other,
                    ));
                }
            },
        }
    }
}

/// The shape of a hash changes exactly when a property is added, and is never
/// zero: a cached slot is used again only while the shape is the same.
pub proof fn law_shape_follows_the_properties(h: HashView, key: HashKey, value: Value)
    requires
        h.wf(),
    ensures
        (h.with(key, value).shape_version == h.shape_version) == (h.slot_of(key) is Some),
        (h.with(key, value).keys() == h.keys()) == (h.slot_of(key) is Some),
        h.with(key, value).shape_version != 0,
{
    let after = h.with(key, value);
    match h.slot_of(key) {
        Some(i) => {
            assert(after.keys() =~= h.keys());
        },
        None => {
            assert(after.keys().len() == h.keys().len() + 1);
        },
    }
}

} // verus!
