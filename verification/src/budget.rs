//! The bounded budget of process status files a backend may keep open
//! between refreshes. Keeping a file open is an optimization, never a
//! correctness need: when the budget runs out, the backend reopens
//! the file every cycle instead, and the refresh goes on.

use vstd::prelude::*;

verus! {

/// A counter of how many more status files may stay open. The limit
/// is injected where the table is built, not held globally.
pub struct FileHandleBudget {
    /// How many more files may be kept open.
    pub remaining: u64,
}

impl FileHandleBudget {
    /// A budget of this many files.
    pub fn new(limit: u64) -> (r: FileHandleBudget)
        ensures
            r.remaining == limit,
    {
        FileHandleBudget { remaining: limit }
    }

    /// Takes one slot, reporting whether one was left: a caller that
    /// gets none falls back to reopening the file each cycle.
    pub fn acquire(&mut self) -> (granted: bool)
        ensures
            old(self).remaining > 0 ==> granted && final(self).remaining == old(self).remaining
                - 1,
            old(self).remaining == 0 ==> !granted && final(self).remaining == 0,
    {
        if self.remaining > 0 {
            self.remaining = self.remaining - 1;
            true
        } else {
            false
        }
    }

    /// Returns one slot when a kept-open file is dropped. A full
    /// counter stays full rather than wrapping.
    pub fn release(&mut self)
        ensures
            old(self).remaining < u64::MAX ==> final(self).remaining == old(self).remaining + 1,
            old(self).remaining == u64::MAX ==> final(self).remaining == u64::MAX,
    {
        if self.remaining < u64::MAX {
            self.remaining = self.remaining + 1;
        }
    }

    /// How many slots are left.
    pub fn remaining(&self) -> (r: u64)
        ensures
            r == self.remaining,
    {
        self.remaining
    }
}

} // verus!
