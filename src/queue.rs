//! The shared task queue of a bounded pool.
use vstd::prelude::*;

verus! {

/// Hands out the input positions `0, 1, ..., len - 1` in order, each once.
///
/// The workers of a bounded pool share one queue behind a lock and loop:
/// take a position, fetch, report, until the queue is empty.
pub struct TaskQueue {
    next: usize,
    len: usize,
}

impl TaskQueue {
    #[verifier::type_invariant]
    spec fn next_within(&self) -> bool {
        self.next <= self.len
    }

    /// How many positions have been handed out.
    pub closed spec fn dispatched(&self) -> nat {
        self.next as nat
    }

    /// How many positions the queue holds in all.
    pub closed spec fn size(&self) -> nat {
        self.len as nat
    }

    /// A queue over the positions below `len`, none handed out yet.
    pub fn new(len: usize) -> (q: TaskQueue)
        ensures
            q.dispatched() == 0,
            q.size() == len,
    {
        TaskQueue { next: 0, len }
    }

    /// The next position, or none once every position has been handed out.
    pub fn take(&mut self) -> (r: Option<usize>)
        ensures
            final(self).size() == old(self).size(),
            final(self).dispatched() <= final(self).size(),
            old(self).dispatched() < old(self).size() ==> r == Some(old(self).dispatched() as usize)
                && final(self).dispatched() == old(self).dispatched() + 1,
            old(self).dispatched() >= old(self).size() ==> r.is_none() && final(self).dispatched() == old(self).dispatched(),
    {
        proof {
            use_type_invariant(&*self);
        }
        if self.next < self.len {
            let p = self.next;
            self.next = self.next + 1;
            Some(p)
        } else {
            None
        }
    }

    /// How many positions are still to be handed out.
    pub fn remaining(&self) -> (r: usize)
        ensures
            r == self.size() - self.dispatched(),
    {
        proof {
            use_type_invariant(self);
        }
        self.len - self.next
    }
}

} // verus!
