//! Connection identifiers.
//!
//! Each accepted client connection is registered under an internal
//! identifier, assigned in strictly increasing order. A transport address
//! reused by a rapid reconnect therefore never collides with the entry of
//! the connection it replaces.

use vstd::prelude::*;

verus! {

/// Hands out connection identifiers in strictly increasing order. Its
/// model is the next identifier to be handed out.
pub struct IdAllocator {
    next: u64,
}

impl View for IdAllocator {
    type V = u64;

    closed spec fn view(&self) -> u64 {
        self.next
    }
}

impl IdAllocator {
    /// An allocator that starts at identifier zero.
    pub fn new() -> (a: IdAllocator)
        ensures
            a@ == 0,
    {
        IdAllocator { next: 0 }
    }

    /// Whether another identifier can still be handed out.
    pub fn can_allocate(&self) -> (r: bool)
        ensures
            r == (self@ < u64::MAX),
    {
        self.next < u64::MAX
    }

    /// Hands out the next identifier. Every identifier handed out earlier
    /// is strictly smaller, so no two calls return the same one.
    pub fn fresh(&mut self) -> (id: u64)
        requires
            old(self)@ < u64::MAX,
        ensures
            id == old(self)@,
            final(self)@ == old(self)@ + 1,
    {
        let id = self.next;
        self.next = self.next + 1;
        id
    }
}

} // verus!
