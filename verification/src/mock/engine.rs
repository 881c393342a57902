//! The engine over the store: what each request of the interface does here.
//!
//! Reading works for real — topics, searching, aggregating, fetching a message. Changing
//! things mostly does not: the data is a fixture, and mutations report success without
//! altering it, except for the registry list and the choice of word-split fields.

use vstd::prelude::*;

use crate::mock::store::MockStore;

verus! {

/// An engine over fixture data.
#[derive(Debug)]
pub struct MockEngine {
    store: MockStore,
}

impl MockEngine {
    /// The store the engine answers from.
    pub closed spec fn held(self) -> MockStore {
        self.store
    }

    /// An engine over a loaded store.
    pub fn new(store: MockStore) -> (e: Self)
        ensures
            e.held() == store,
    {
        MockEngine { store }
    }

    /// The store the engine answers from.
    pub fn store(&self) -> (s: &MockStore)
        ensures
            *s == self.held(),
    {
        &self.store
    }

    /// The store, for changing what may change while running.
    pub(crate) fn store_mut(&mut self) -> (s: &mut MockStore)
        ensures
            *s == old(self).held(),
            final(self).held() == *final(s),
    {
        &mut self.store
    }
}

} // verus!
