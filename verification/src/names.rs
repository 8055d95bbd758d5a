//! Tables keyed by name.
//!
//! `NameIndex` and `WordIndex` are the Fx hash maps that everything else is
//! built from. `NameMap` and `NameSet` are what the rest of the crate uses.
use rustc_hash::FxHashMap;
use vstd::prelude::*;

use crate::text::str_eq;

verus! {

/// A hash map from names to positions.
#[verifier::external_body]
#[derive(Debug)]
pub struct NameIndex {
    map: FxHashMap<String, usize>,
}

/// The entries of a `NameIndex`.
pub uninterp spec fn name_index_entries(t: NameIndex) -> Map<Seq<char>, usize>;

/// The map without entries.
pub open spec fn no_names() -> Map<Seq<char>, usize> {
    Map::empty()
}

impl NameIndex {
    /// Calls `FxHashMap::default`: the map is empty.
    #[verifier::external_body]
    pub(crate) fn new() -> (t: Self)
        ensures
            name_index_entries(t) == no_names(),
    {
        NameIndex { map: FxHashMap::default() }
    }

    /// Calls `HashMap::get`: the position stored under the name, if any.
    #[verifier::external_body]
    pub(crate) fn get(&self, name: &str) -> (r: Option<usize>)
        ensures
            r == (if name_index_entries(*self).dom().contains(name@) {
                Some(name_index_entries(*self)[name@])
            } else {
                None
            }),
    {
        self.map.get(name).copied()
    }

    /// Calls `HashMap::insert`: the name now stands for the position, whatever
    /// it stood for before, and every other name is left as it was.
    #[verifier::external_body]
    pub(crate) fn insert(&mut self, name: String, position: usize)
        ensures
            name_index_entries(*final(self)) == name_index_entries(*old(self)).insert(
                name@,
                position,
            ),
    {
        self.map.insert(name, position);
    }

    /// Calls `HashMap::clone`: the copy has the same entries.
    #[verifier::external_body]
    pub(crate) fn copy(&self) -> (t: Self)
        ensures
            name_index_entries(t) == name_index_entries(*self),
    {
        NameIndex { map: self.map.clone() }
    }
}

/// A hash map from machine words to positions.
#[verifier::external_body]
#[derive(Debug)]
pub struct WordIndex {
    map: FxHashMap<u64, usize>,
}

/// The entries of a `WordIndex`.
pub uninterp spec fn word_index_entries(t: WordIndex) -> Map<u64, usize>;

/// The map without entries.
pub open spec fn no_words() -> Map<u64, usize> {
    Map::empty()
}

impl WordIndex {
    /// Calls `FxHashMap::default`: the map is empty.
    #[verifier::external_body]
    pub(crate) fn new() -> (t: Self)
        ensures
            word_index_entries(t) == no_words(),
    {
        WordIndex { map: FxHashMap::default() }
    }

    /// Calls `HashMap::get`: the position stored under the word, if any.
    #[verifier::external_body]
    pub(crate) fn get(&self, word: u64) -> (r: Option<usize>)
        ensures
            r == (if word_index_entries(*self).dom().contains(word) {
                Some(word_index_entries(*self)[word])
            } else {
                None
            }),
    {
        self.map.get(&word).copied()
    }

    /// Calls `HashMap::insert`: the word now stands for the position, whatever
    /// it stood for before, and every other word is left as it was.
    #[verifier::external_body]
    pub(crate) fn insert(&mut self, word: u64, position: usize)
        ensures
            word_index_entries(*final(self)) == word_index_entries(*old(self)).insert(
                word,
                position,
            ),
    {
        self.map.insert(word, position);
    }

    /// Calls `HashMap::clone`: the copy has the same entries.
    #[verifier::external_body]
    pub(crate) fn copy(&self) -> (t: Self)
        ensures
            word_index_entries(t) == word_index_entries(*self),
    {
        WordIndex { map: self.map.clone() }
    }
}

/// What a name table holds: the value of each name, and the names in the order
/// in which they were first inserted.
#[verifier::ext_equal]
pub struct Names<V> {
    pub map: Map<Seq<char>, V>,
    pub order: Seq<Seq<char>>,
}

impl<V> Names<V> {
    /// No names at all.
    pub open spec fn empty() -> Self {
        Names { map: Map::empty(), order: Seq::empty() }
    }

    pub open spec fn has(self, name: Seq<char>) -> bool {
        self.map.dom().contains(name)
    }

    pub open spec fn get(self, name: Seq<char>) -> Option<V> {
        if self.has(name) {
            Some(self.map[name])
        } else {
            None
        }
    }

    /// The table with `name` set to `value`. A name that is already there
    /// keeps its place.
    pub open spec fn set(self, name: Seq<char>, value: V) -> Self {
        Names {
            map: self.map.insert(name, value),
            order: if self.has(name) {
                self.order
            } else {
                self.order.push(name)
            },
        }
    }

    /// The table with `name` set to `value` unless it is already there.
    pub open spec fn set_new(self, name: Seq<char>, value: V) -> Self {
        if self.has(name) {
            self
        } else {
            self.set(name, value)
        }
    }

    /// The table without `name`. The other names keep their order.
    pub open spec fn unset(self, name: Seq<char>) -> Self {
        Names { map: self.map.remove(name), order: without(self.order, name) }
    }

    /// The table after the names of `other` from position `i` on, in order,
    /// have each been set unless already there.
    pub open spec fn adopt(self, other: Self, i: int) -> Self
        decreases other.order.len() - i,
    {
        if i < 0 || i >= other.order.len() {
            self
        } else {
            self.set_new(other.order[i], other.map[other.order[i]]).adopt(other, i + 1)
        }
    }
}

/// A list without the occurrences of a name.
pub open spec fn without(order: Seq<Seq<char>>, name: Seq<char>) -> Seq<Seq<char>>
    decreases order.len(),
{
    if order.len() == 0 {
        order
    } else if order.last() == name {
        without(order.drop_last(), name)
    } else {
        without(order.drop_last(), name).push(order.last())
    }
}

/// A table from names to values that remembers insertion order.
#[derive(Debug)]
pub struct NameMap<V> {
    index: NameIndex,
    entries: Vec<(String, V)>,
}

impl<V> NameMap<V> {
    #[verifier::type_invariant]
    closed spec fn index_matches_entries(self) -> bool {
        &&& forall|name: Seq<char>| #[trigger]
            name_index_entries(self.index).dom().contains(name) ==> name_index_entries(self.index)[name] < self.entries@.len()
                && self.entries@[name_index_entries(self.index)[name] as int].0@ == name
        &&& forall|i: int|
            0 <= i < self.entries@.len() ==> name_index_entries(self.index).dom().contains(
                (#[trigger] self.entries@[i]).0@,
            ) && name_index_entries(self.index)[self.entries@[i].0@] == i
    }

    /// The position of a name among the entries.
    pub closed spec fn position(self, name: Seq<char>) -> int {
        name_index_entries(self.index)[name] as int
    }

    pub closed spec fn has(self, name: Seq<char>) -> bool {
        name_index_entries(self.index).dom().contains(name)
    }

    pub closed spec fn items(self) -> Seq<(String, V)> {
        self.entries@
    }
}

impl<V> View for NameMap<V> {
    type V = Names<V>;

    open spec fn view(&self) -> Names<V> {
        Names {
            map: Map::new(
                |name: Seq<char>| self.has(name),
                |name: Seq<char>| self.items()[self.position(name)].1,
            ),
            order: Seq::new(self.items().len(), |i: int| self.items()[i].0@),
        }
    }
}

impl<V> NameMap<V> {
    pub fn new() -> (t: Self)
        ensures
            t@ == Names::<V>::empty(),
    {
        let t = NameMap { index: NameIndex::new(), entries: Vec::new() };
        assert(t@ =~= Names::<V>::empty());
        t
    }

    /// Each name has its entry's position.
    pub open spec fn positions_hold(self) -> bool {
        forall|name: Seq<char>| #[trigger]
            self.has(name) ==> 0 <= self.position(name) < self.items().len()
                && self.items()[self.position(name)].0@ == name
    }

    /// Each item is filed under its name.
    pub open spec fn items_are_filed(self) -> bool {
        forall|i: int|
            #![trigger self.items()[i]]
            0 <= i < self.items().len() ==> self.has(self.items()[i].0@) && self.position(
                self.items()[i].0@,
            ) == i
    }

    /// What every table satisfies.
    pub fn facts(&self)
        ensures
            self.positions_hold(),
            self.items_are_filed(),
    {
        proof {
            use_type_invariant(self);
        }
    }

    pub fn len(&self) -> (n: usize)
        ensures
            n == self@.order.len(),
    {
        self.entries.len()
    }

    pub fn contains_key(&self, name: &str) -> (r: bool)
        ensures
            r == self@.has(name@),
    {
        self.index.get(name).is_some()
    }

    pub fn get(&self, name: &str) -> (r: Option<&V>)
        ensures
            match r {
                Some(v) => self@.get(name@) == Some(*v),
                None => self@.get(name@) is None,
            },
    {
        proof {
            use_type_invariant(self);
        }
        match self.index.get(name) {
            Some(i) => Some(&self.entries[i].1),
            None => None,
        }
    }

    /// The name at a position in insertion order.
    pub fn name_at(&self, i: usize) -> (name: &String)
        requires
            i < self@.order.len(),
        ensures
            name@ == self@.order[i as int],
            self@.has(name@),
    {
        proof {
            use_type_invariant(self);
        }
        &self.entries[i].0
    }

    /// The value at a position in insertion order.
    pub fn value_at(&self, i: usize) -> (value: &V)
        requires
            i < self@.order.len(),
        ensures
            *value == self@.map[self@.order[i as int]],
            *value == self.items()[i as int].1,
    {
        proof {
            use_type_invariant(self);
        }
        &self.entries[i].1
    }

    /// A table with the same names in the same order, each value made from the
    /// one it stands for by `f`.
    pub fn copy_by<F: Fn(&V) -> V>(&self, f: F) -> (r: Self)
        requires
            forall|v: &V| #[trigger] call_requires(f, (v,)),
        ensures
            r@.order == self@.order,
            r@.map.dom() == self@.map.dom(),
            forall|name: Seq<char>|
                self@.has(name) ==> call_ensures(
                    f,
                    (&self@.map[name],),
                    #[trigger] r@.map[name],
                ),
    {
        proof {
            use_type_invariant(self);
        }
        let mut entries: Vec<(String, V)> = Vec::new();
        let mut i: usize = 0;
        while i < self.entries.len()
            invariant
                0 <= i <= self.entries@.len(),
                entries@.len() == i,
                forall|v: &V| #[trigger] call_requires(f, (v,)),
                forall|k: int|
                    #![trigger entries@[k]]
                    0 <= k < i ==> entries@[k].0 == self.entries@[k].0 && call_ensures(
                        f,
                        (&self.entries@[k].1,),
                        entries@[k].1,
                    ),
            decreases self.entries@.len() - i,
        {
            entries.push((self.entries[i].0.clone(), f(&self.entries[i].1)));
            i += 1;
        }
        let r = NameMap { index: self.index.copy(), entries };
        assert(r@.order =~= self@.order);
        assert(r@.map.dom() =~= self@.map.dom());
        r
    }

    pub fn insert(&mut self, name: String, value: V)
        ensures
            final(self)@ == old(self)@.set(name@, value),
    {
        let mut whole = NameMap { index: NameIndex::new(), entries: Vec::new() };
        core::mem::swap(self, &mut whole);
        let ghost before = whole;
        proof {
            use_type_invariant(&whole);
        }
        let NameMap { index, entries } = whole;
        let mut index = index;
        let mut entries = entries;
        match index.get(name.as_str()) {
            Some(i) => {
                entries[i] = (name, value);
            },
            None => {
                let position: usize = entries.len();
                let key = name.clone();
                entries.push((name, value));
                index.insert(key, position);
            },
        }
        *self = NameMap { index, entries };
        assert(self@ =~= before@.set(name@, value));
    }
}

/// A value in a table is smaller than the table.
pub proof fn lemma_items_decrease<V>(t: NameMap<V>, i: int)
    requires
        0 <= i < t.items().len(),
    ensures
        decreases_to!(t => t.items()[i].1),
{
    let entry = t.entries@[i];
    assert(decreases_to!(t.entries => t.entries@[i]));
}

impl NameMap<u16> {
    /// Take a name out.
    pub fn remove(&mut self, name: &str)
        ensures
            final(self)@ == old(self)@.unset(name@),
    {
        proof {
            use_type_invariant(&*self);
        }
        let ghost before = *self;
        let mut index = NameIndex::new();
        let mut entries: Vec<(String, u16)> = Vec::new();
        let mut i: usize = 0;
        assert(before@.order.take(0) =~= Seq::empty());
        while i < self.entries.len()
            invariant
                before == *self,
                before.index_matches_entries(),
                0 <= i <= self.entries@.len(),
                entries@.len() <= i,
                forall|k: int|
                    #![trigger entries@[k]]
                    0 <= k < entries@.len() ==> name_index_entries(index).dom().contains(
                        entries@[k].0@,
                    ) && name_index_entries(index)[entries@[k].0@] == k,
                forall|n: Seq<char>| #[trigger]
                    name_index_entries(index).dom().contains(n) ==> name_index_entries(index)[n]
                        < entries@.len() && entries@[name_index_entries(index)[n] as int].0@ == n,
                forall|n: Seq<char>| #[trigger]
                    name_index_entries(index).dom().contains(n) <==> n != name@
                        && name_index_entries(before.index).dom().contains(n)
                        && name_index_entries(before.index)[n] < i,
                forall|n: Seq<char>| #[trigger]
                    name_index_entries(index).dom().contains(n)
                        ==> entries@[name_index_entries(index)[n] as int].1
                        == before.entries@[name_index_entries(before.index)[n] as int].1,
                Seq::new(entries@.len(), |k: int| entries@[k].0@) == without(
                    before@.order.take(i as int),
                    name@,
                ),
            decreases self.entries@.len() - i,
        {
            let ghost kept = entries@;
            let ghost key = self.entries@[i as int].0@;
            proof {
                let longer = before@.order.take(i as int + 1);
                assert(longer.drop_last() =~= before@.order.take(i as int));
                assert(longer.last() == key);
                assert(before.entries@[i as int].0@ == key);
            }
            if !str_eq(self.entries[i].0.as_str(), name) {
                let position: usize = entries.len();
                index.insert(self.entries[i].0.clone(), position);
                entries.push((self.entries[i].0.clone(), self.entries[i].1));
                assert(Seq::new(entries@.len(), |k: int| entries@[k].0@) =~= Seq::new(
                    kept.len(),
                    |k: int| kept[k].0@,
                ).push(key));
            }
            i += 1;
        }
        *self = NameMap { index, entries };
        assert(before@.order.take(i as int) =~= before@.order);
        assert(self@.order =~= before@.unset(name@).order);
        assert(self@.map =~= before@.unset(name@).map);
    }

    /// A copy of a table of slots.
    pub fn copy(&self) -> (r: Self)
        ensures
            r@ == self@,
    {
        let same = |v: &u16| -> (w: u16)
            ensures
                w == *v,
        { *v };
        let r = self.copy_by(same);
        assert(r@.map =~= self@.map);
        r
    }

    /// Add the names of `other`, in order, that are not there yet.
    pub fn adopt(&mut self, other: &NameMap<u16>)
        ensures
            final(self)@ == old(self)@.adopt(other@, 0),
    {
        let mut i: usize = 0;
        while i < other.len()
            invariant
                0 <= i <= other@.order.len(),
                self@.adopt(other@, i as int) == old(self)@.adopt(other@, 0),
            decreases other@.order.len() - i,
        {
            if !self.contains_key(other.name_at(i).as_str()) {
                self.insert(other.name_at(i).clone(), *other.value_at(i));
            }
            i += 1;
        }
    }
}

/// A set of names.
#[derive(Debug)]
pub struct NameSet {
    index: NameIndex,
}

impl View for NameSet {
    type V = Set<Seq<char>>;

    closed spec fn view(&self) -> Set<Seq<char>> {
        name_index_entries(self.index).dom()
    }
}

impl NameSet {
    pub fn new() -> (t: Self)
        ensures
            t@ == Set::<Seq<char>>::empty(),
    {
        let t = NameSet { index: NameIndex::new() };
        assert(t@ =~= Set::<Seq<char>>::empty());
        t
    }

    pub fn contains(&self, name: &str) -> (r: bool)
        ensures
            r == self@.contains(name@),
    {
        self.index.get(name).is_some()
    }

    pub fn insert(&mut self, name: String)
        ensures
            final(self)@ == old(self)@.insert(name@),
    {
        let ghost key = name@;
        self.index.insert(name, 0);
        assert(self@ =~= old(self)@.insert(key));
    }

    /// A copy of the set.
    pub fn copy(&self) -> (t: Self)
        ensures
            t@ == self@,
    {
        NameSet { index: self.index.copy() }
    }
}

} // verus!
