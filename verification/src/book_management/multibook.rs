//! A registry of books, each under a numeric handle.

use std::collections::BTreeMap;
use std::sync::Arc;
use vstd::prelude::*;

verus! {

/// The handle below the first one that a registry gives out.
pub const FIRST_ID_SENTINEL: u32 = 1000;

/// Books under handles that grow by one with each insertion.
pub struct Multibook<B> {
    curr_id: u32,
    pub subscribed: BTreeMap<u32, Arc<B>>,
}

impl<B> View for Multibook<B> {
    type V = Map<u32, Arc<B>>;

    /// The registered books by their handles.
    closed spec fn view(&self) -> Map<u32, Arc<B>> {
        self.subscribed@
    }
}

impl<B> Multibook<B> {
    /// The handle that was given out last, or the sentinel.
    pub closed spec fn last_id(&self) -> u32 {
        self.curr_id
    }

    /// An empty registry.
    pub fn new() -> (r: Self)
        ensures
            r.last_id() == FIRST_ID_SENTINEL,
            r@ == Map::<u32, Arc<B>>::empty(),
    {
        Self { curr_id: 1000, subscribed: BTreeMap::new() }
    }

    /// The handle that was given out last, or the sentinel.
    pub fn curr_id(&self) -> (id: u32)
        ensures
            id == self.last_id(),
    {
        self.curr_id
    }

    /// The book that is registered under `id`, if there is one.
    pub fn get(&self, id: u32) -> (r: Option<&Arc<B>>)
        ensures
            r is Some <==> self@.contains_key(id),
            r matches Some(b) ==> *b == self@[id],
    {
        self.subscribed.get(&id)
    }

    /// Registers `book` under the next handle and returns the handle.
    pub fn insert(&mut self, book: &Arc<B>) -> (id: u32)
        requires
            old(self).last_id() < u32::MAX,
        ensures
            id == old(self).last_id() + 1,
            final(self).last_id() == id,
            final(self)@ == old(self)@.insert(id, *book),
    {
        let id = self.get_new_id();
        self.subscribed.insert(id, Arc::clone(book));
        id
    }

    /// The next handle.
    fn get_new_id(&mut self) -> (id: u32)
        requires
            old(self).last_id() < u32::MAX,
        ensures
            id == old(self).last_id() + 1,
            final(self).last_id() == id,
            final(self)@ == old(self)@,
    {
        self.curr_id += 1;
        self.curr_id
    }
}

} // verus!
