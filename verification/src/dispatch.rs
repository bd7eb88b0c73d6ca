//! The dispatch table of an actor type: for each message type that the
//! actor accepts, the handler that takes it.

use vstd::prelude::*;
use std::collections::HashMap;

verus! {

broadcast use vstd::std_specs::hash::group_hash_axioms;

/// A map from message types to handlers, with at most one handler for each
/// message type. It is filled before the actor is spawned and only read
/// after that.
pub struct DispatchTable {
    entries: HashMap<u64, u64>,
}

impl View for DispatchTable {
    type V = Map<u64, u64>;

    closed spec fn view(&self) -> Map<u64, u64> {
        self.entries@
    }
}

impl DispatchTable {
    /// A table without handlers.
    pub fn new() -> (table: DispatchTable)
        ensures
            table@ == Map::<u64, u64>::empty(),
    {
        DispatchTable { entries: HashMap::new() }
    }

    /// Registers `handler` for the message type `kind`, unless the type has
    /// a handler already: then the table stays as it is. Tells whether the
    /// handler was registered.
    pub fn register(&mut self, kind: u64, handler: u64) -> (added: bool)
        ensures
            added == !old(self)@.contains_key(kind),
            final(self)@ == if added {
                old(self)@.insert(kind, handler)
            } else {
                old(self)@
            },
    {
        if self.entries.contains_key(&kind) {
            false
        } else {
            self.entries.insert(kind, handler);
            true
        }
    }

    /// The handler for the message type `kind`, if there is one.
    pub fn lookup(&self, kind: u64) -> (handler: Option<u64>)
        ensures
            handler == if self@.contains_key(kind) {
                Some(self@[kind])
            } else {
                None
            },
    {
        match self.entries.get(&kind) {
            Some(handler) => Some(*handler),
            None => None,
        }
    }

    /// Tells whether every message type in `kinds` has a handler.
    pub fn accepts_all(&self, kinds: &Vec<u64>) -> (complete: bool)
        ensures
            complete == forall|i: int| 0 <= i < kinds@.len() ==> self@.contains_key(kinds@[i]),
    {
        let mut i: usize = 0;
        while i < kinds.len()
            invariant
                i <= kinds@.len(),
                forall|j: int| 0 <= j < i ==> self@.contains_key(kinds@[j]),
            decreases kinds@.len() - i,
        {
            if !self.entries.contains_key(&kinds[i]) {
                return false;
            }
            i += 1;
        }
        true
    }
}

} // verus!
