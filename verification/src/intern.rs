//! Symbols: strings stored once and named by a 32-bit identifier.
use std::rc::Rc;

use vstd::prelude::*;

use crate::names::{name_index_entries, NameIndex};

verus! {

/// What an interner holds: the strings in the order of their identifiers, and
/// the position under which each string was filed.
#[verifier::ext_equal]
pub struct SymbolTable {
    pub strings: Seq<Seq<char>>,
    pub ids: Map<Seq<char>, usize>,
}

impl SymbolTable {
    /// A table without symbols.
    pub open spec fn empty() -> Self {
        SymbolTable { strings: Seq::empty(), ids: Map::empty() }
    }

    /// The identifier that interning `s` returns.
    pub open spec fn id_of(self, s: Seq<char>) -> u32 {
        if self.ids.dom().contains(s) {
            self.ids[s] as u32
        } else {
            self.strings.len() as u32
        }
    }

    /// The table after interning `s`.
    pub open spec fn with(self, s: Seq<char>) -> Self {
        if self.ids.dom().contains(s) {
            self
        } else {
            SymbolTable {
                strings: self.strings.push(s),
                ids: self.ids.insert(s, self.strings.len() as usize),
            }
        }
    }

    /// Each string is filed once, under its own position, and every position
    /// is an identifier.
    pub open spec fn wf(self) -> bool {
        &&& self.strings.len() <= 0x1_0000_0000
        &&& forall|i: int|
            0 <= i < self.strings.len() ==> self.ids.dom().contains(#[trigger] self.strings[i])
                && self.ids[self.strings[i]] == i
        &&& forall|s: Seq<char>| #[trigger]
            self.ids.dom().contains(s) ==> self.ids[s] < self.strings.len()
                && self.strings[self.ids[s] as int] == s
    }
}

/// A store of distinct strings.
#[derive(Debug)]
pub struct Interner {
    strings: Vec<Rc<String>>,
    ids: NameIndex,
}

impl View for Interner {
    type V = SymbolTable;

    closed spec fn view(&self) -> SymbolTable {
        SymbolTable {
            strings: Seq::new(self.strings@.len(), |i: int| self.strings@[i]@),
            ids: name_index_entries(self.ids),
        }
    }
}

impl Interner {
    #[verifier::type_invariant]
    closed spec fn filed_within_bounds(self) -> bool {
        forall|s: Seq<char>| #[trigger]
            name_index_entries(self.ids).dom().contains(s) ==> name_index_entries(self.ids)[s]
                < self.strings@.len() && self.strings@[name_index_entries(self.ids)[s] as int]@
                == s
    }

    pub fn new() -> (t: Self)
        ensures
            t@ == SymbolTable::empty(),
            t@.wf(),
    {
        let t = Interner { strings: Vec::new(), ids: NameIndex::new() };
        assert(t@ =~= SymbolTable::empty());
        t
    }

    /// The number of symbols.
    pub fn len(&self) -> (n: usize)
        ensures
            n == self@.strings.len(),
    {
        self.strings.len()
    }

    /// The position under which a string is filed.
    fn find(&self, s: &str) -> (r: Option<usize>)
        ensures
            match r {
                Some(position) => self@.ids.dom().contains(s@) && position == self@.ids[s@]
                    && position < self@.strings.len() && self@.strings[position as int] == s@,
                None => !self@.ids.dom().contains(s@),
            },
    {
        proof {
            use_type_invariant(self);
        }
        self.ids.get(s)
    }

    /// Files a string that is not there yet, and returns its position.
    fn file(&mut self, s: Rc<String>) -> (position: usize)
        requires
            !old(self)@.ids.dom().contains(s@),
        ensures
            final(self)@ == old(self)@.with(s@),
            position == old(self)@.strings.len(),
            final(self)@.strings.len() == position + 1,
            final(self)@.strings[position as int] == s@,
    {
        proof {
            use_type_invariant(&*self);
        }
        let position: usize = self.strings.len();
        let mut taken = Interner::new();
        core::mem::swap(self, &mut taken);
        let Interner { strings, ids } = taken;
        let mut strings = strings;
        let mut ids = ids;
        ids.insert((*s).clone(), position);
        strings.push(s);
        *self = Interner { strings, ids };
        assert(self@ =~= old(self)@.with(s@));
        position
    }

    /// Files `s` unless it is there already, and returns its position.
    fn place(&mut self, s: &str) -> (position: usize)
        ensures
            final(self)@ == old(self)@.with(s@),
            position as u32 == old(self)@.id_of(s@),
            position < final(self)@.strings.len(),
            final(self)@.strings[position as int] == s@,
    {
        match self.find(s) {
            Some(position) => position,
            None => self.file(Rc::new(s.to_owned())),
        }
    }
}

/// Intern a string slice, returning a u32 symbol ID.
/// Identical strings always return the same ID.
pub fn intern(table: &mut Interner, s: &str) -> (id: u32)
    ensures
        id == old(table)@.id_of(s@),
        final(table)@ == old(table)@.with(s@),
{
    table.place(s) as u32
}

/// Intern a shared string, returning a u32 symbol ID. A string that is not there
/// yet is filed as it is, without a copy.
pub fn intern_rc(table: &mut Interner, s: &Rc<String>) -> (id: u32)
    ensures
        id == old(table)@.id_of(s@),
        final(table)@ == old(table)@.with(s@),
{
    match table.find(s.as_str()) {
        Some(position) => position as u32,
        None => table.file(s.clone()) as u32,
    }
}

/// Resolve a symbol ID back to its string, which is shared with the table.
pub fn resolve(table: &Interner, id: u32) -> (s: Rc<String>)
    requires
        id < table@.strings.len(),
    ensures
        s@ == table@.strings[id as int],
{
    table.strings[id as usize].clone()
}

/// Intern a string slice, returning the stored string, which is shared with the
/// table.
pub fn intern_str(table: &mut Interner, s: &str) -> (r: Rc<String>)
    ensures
        r@ == s@,
        final(table)@ == old(table)@.with(s@),
{
    let position: usize = table.place(s);
    table.strings[position].clone()
}

/// Interning keeps a table well formed as long as identifiers are left.
pub proof fn law_interning_keeps_table_well_formed(t: SymbolTable, s: Seq<char>)
    requires
        t.wf(),
        t.strings.len() < 0x1_0000_0000,
        t.strings.len() < usize::MAX,
    ensures
        t.with(s).wf(),
{
}

/// Resolving the identifier of an interned string gives the string back, and
/// interning it again changes nothing and returns the same identifier.
pub proof fn law_resolve_undoes_intern(t: SymbolTable, s: Seq<char>)
    requires
        t.wf(),
        t.strings.len() < 0x1_0000_0000,
        t.strings.len() < usize::MAX,
    ensures
        t.id_of(s) < t.with(s).strings.len(),
        t.with(s).strings[t.id_of(s) as int] == s,
        t.with(s).with(s) == t.with(s),
        t.with(s).id_of(s) == t.id_of(s),
{
}

/// Two strings get the same identifier exactly when they are the same string.
pub proof fn law_identifiers_are_unique(t: SymbolTable, a: Seq<char>, b: Seq<char>)
    requires
        t.wf(),
        t.strings.len() < 0xffff_ffff,
        t.strings.len() + 1 < usize::MAX,
    ensures
        (t.with(a).with(b).id_of(a) == t.with(a).with(b).id_of(b)) == (a == b),
{
    law_interning_keeps_table_well_formed(t, a);
    law_interning_keeps_table_well_formed(t.with(a), b);
    let u = t.with(a).with(b);
    assert(u.ids.dom().contains(a) && u.ids.dom().contains(b));
    assert(u.strings[u.ids[a] as int] == a);
    assert(u.strings[u.ids[b] as int] == b);
}

/// An identifier, once given, stands for the same string whatever is interned
/// later.
pub proof fn law_identifiers_are_stable(t: SymbolTable, id: u32, later: Seq<char>)
    requires
        id < t.strings.len(),
    ensures
        id < t.with(later).strings.len(),
        t.with(later).strings[id as int] == t.strings[id as int],
{
}

} // verus!
