//! The identifier allocator: one monotonically increasing counter per
//! compilation target.
//!
//! A node's `next` pointer must be embedded in its own record before the
//! sibling node exists, so the allocator exposes `peek`, which predicts
//! the identifier the following `allocate` call will mint. Ids, once
//! issued, are never reused.

use vstd::prelude::*;

verus! {

/// The successor of an id counter, saturating at the top of the id
/// space.
pub open spec fn sat_next(n: u64) -> u64 {
    if n == u64::MAX {
        u64::MAX
    } else {
        (n + 1) as u64
    }
}

/// The allocator state: the next identifier to issue.
#[derive(Debug, Clone, Copy, PartialEq, Eq, Structural)]
pub struct Allocator {
    pub next: u64,
}

impl Allocator {
    /// A fresh allocator, issuing ids from zero.
    pub fn new() -> (a: Allocator)
        ensures
            a.next == 0,
    {
        Allocator { next: 0 }
    }

    /// Consume and return the next identifier. The counter saturates at
    /// the top of the id space, which no real compilation reaches; the
    /// uniqueness laws of the lowering hold below that bound.
    pub fn allocate(&mut self) -> (id: u64)
        ensures
            id == old(self).next,
            final(self).next == sat_next(old(self).next),
    {
        let id = self.next;
        if self.next < u64::MAX {
            self.next = self.next + 1;
        }
        id
    }

    /// The identifier `allocate` would return next, with no side effect.
    pub fn peek(&self) -> (id: u64)
        ensures
            id == self.next,
    {
        self.next
    }
}

} // verus!
