//! A model of the embedded interpreter's process-wide exclusivity lock: a
//! reentrant token with a nesting depth. A caller acquires it before any
//! embedded call and releases it on every exit path; the contracts make each
//! release account for exactly one acquisition, so a scope that pairs the two
//! leaves the depth where it found it.

use vstd::prelude::*;

verus! {

/// A reentrant exclusivity token. The depth counts nested acquisitions by
/// the current holder; zero means the lock is free.
pub struct GilToken {
    depth: u32,
}

impl GilToken {
    /// The current nesting depth of the token.
    pub closed spec fn depth(&self) -> int {
        self.depth as int
    }

    /// Whether the lock is currently held at all.
    pub open spec fn is_held(&self) -> bool {
        self.depth() > 0
    }

    /// A free token: nobody holds the lock.
    pub fn new() -> (r: GilToken)
        ensures
            r.depth() == 0,
            !r.is_held(),
    {
        GilToken { depth: 0 }
    }

    /// Acquires the lock once more. Reentrant: a holder may acquire again,
    /// deepening the nesting by exactly one.
    pub fn acquire(&mut self)
        requires
            old(self).depth() < u32::MAX,
        ensures
            final(self).depth() == old(self).depth() + 1,
            final(self).is_held(),
    {
        self.depth = self.depth + 1;
    }

    /// Releases one acquisition. Every release accounts for exactly one
    /// earlier acquisition, so paired use restores the depth.
    pub fn release(&mut self)
        requires
            old(self).depth() > 0,
        ensures
            final(self).depth() == old(self).depth() - 1,
    {
        self.depth = self.depth - 1;
    }

    /// Whether the lock is held.
    pub fn held(&self) -> (r: bool)
        ensures
            r == self.is_held(),
    {
        self.depth > 0
    }
}

} // verus!
