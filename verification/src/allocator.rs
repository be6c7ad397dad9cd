//! The identifier allocator: one rising sequence of identifiers for records
//! of every kind.

use vstd::prelude::*;
use crate::backend::{counter_get, counter_set, counter_value, Counter};

verus! {

/// Hands out identifiers 0, 1, 2, ... and keeps the next one in stable
/// memory.
pub struct IdAllocator {
    counter: Counter,
}

impl View for IdAllocator {
    type V = u64;

    /// The identifier that is handed out next.
    closed spec fn view(&self) -> u64 {
        counter_value(self.counter)
    }
}

impl IdAllocator {
    /// An allocator that goes on where a counter stands.
    pub(crate) fn new(counter: Counter) -> (ids: Self)
        ensures
            ids@ == counter_value(counter),
    {
        IdAllocator { counter }
    }

    /// The identifier that is handed out next.
    pub fn peek(&self) -> (next: u64)
        ensures
            next == self@,
    {
        counter_get(&self.counter)
    }

    /// Whether every identifier but the last has been handed out, so that
    /// [`IdAllocator::next_id`] can no longer be called.
    pub fn exhausted(&self) -> (done: bool)
        ensures
            done == (self@ == u64::MAX),
    {
        counter_get(&self.counter) == u64::MAX
    }

    /// Hands out an identifier. It is larger than every identifier handed out
    /// before, and the next will be larger still.
    pub fn next_id(&mut self) -> (id: u64)
        requires
            old(self)@ < u64::MAX,
        ensures
            id == old(self)@,
            final(self)@ == id + 1,
    {
        let current = counter_get(&self.counter);
        counter_set(&mut self.counter, current + 1)
    }
}

} // verus!
