//! What everything that runs together shares: the symbols, and the counter
//! that gives each hash its identity.
use vstd::prelude::*;

use crate::intern::{Interner, SymbolTable};

verus! {

#[derive(Debug)]
pub struct Realm {
    pub symbols: Interner,
    pub next_object_id: u64,
}

/// The state of a realm.
#[verifier::ext_equal]
pub struct RealmView {
    pub symbols: SymbolTable,
    pub next_object_id: u64,
}

impl View for Realm {
    type V = RealmView;

    open spec fn view(&self) -> RealmView {
        RealmView { symbols: self.symbols@, next_object_id: self.next_object_id }
    }
}

impl RealmView {
    /// A realm without symbols or objects.
    pub open spec fn empty() -> Self {
        RealmView { symbols: SymbolTable::empty(), next_object_id: 1 }
    }

    /// The realm after an object identity was handed out.
    pub open spec fn after_id(self) -> Self {
        RealmView { next_object_id: next_id(self.next_object_id), ..self }
    }

    /// The realm after a string was interned.
    pub open spec fn after_symbol(self, s: Seq<char>) -> Self {
        RealmView { symbols: self.symbols.with(s), ..self }
    }
}

/// The identity after `id`; the counter wraps around.
pub open spec fn next_id(id: u64) -> u64 {
    if id == u64::MAX {
        0
    } else {
        (id + 1) as u64
    }
}

impl Realm {
    pub fn new() -> (r: Self)
        ensures
            r@ == RealmView::empty(),
    {
        Realm { symbols: Interner::new(), next_object_id: 1 }
    }

    /// Hand out an object identity.
    pub fn fresh_object_id(&mut self) -> (id: u64)
        ensures
            id == old(self)@.next_object_id,
            final(self)@ == old(self)@.after_id(),
    {
        let id: u64 = self.next_object_id;
        self.next_object_id = if id == u64::MAX {
            0
        } else {
            id + 1
        };
        id
    }
}

} // verus!
