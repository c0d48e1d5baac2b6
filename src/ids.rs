//! Issuing of record identifiers.
use vstd::prelude::*;

verus! {

/// A counter that hands out identifiers in strictly increasing order,
/// starting at 1. Each identifier is handed out at most once.
pub struct IdGenerator {
    next: u64,
}

impl IdGenerator {
    /// The identifier that the next call of `next_id` returns.
    pub closed spec fn peek(&self) -> nat {
        self.next as nat
    }

    /// Every generator that has been built starts at 1 and only grows.
    pub closed spec fn wf(&self) -> bool {
        self.next >= 1
    }

    pub fn new() -> (r: IdGenerator)
        ensures
            r.wf(),
            r.peek() == 1,
    {
        IdGenerator { next: 1 }
    }

    /// The identifier the next call of `next_id` will return.
    pub fn upcoming(&self) -> (r: u64)
        ensures
            r as nat == self.peek(),
    {
        self.next
    }

    /// Returns the current counter value, then advances the counter by one.
    pub fn next_id(&mut self) -> (r: u64)
        requires
            old(self).wf(),
            old(self).peek() < u64::MAX,
        ensures
            final(self).wf(),
            r as nat == old(self).peek(),
            final(self).peek() == old(self).peek() + 1,
    {
        let r = self.next;
        self.next = self.next + 1;
        r
    }
}

} // verus!
