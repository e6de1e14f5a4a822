//! The completion counter shared by every task of a run.
use vstd::prelude::*;

verus! {

/// A count of finished tasks, bounded by the number of tasks in the run.
///
/// The only change it allows is an increment by one, and only while the count
/// is below its limit, so it can neither skip, repeat past the batch size,
/// nor go down. Concurrent callers share it behind a lock; each locked
/// increment is one call of [`CompletionCounter::increment`].
pub struct CompletionCounter {
    value: u64,
    limit: u64,
}

impl CompletionCounter {
    #[verifier::type_invariant]
    spec fn within_limit(&self) -> bool {
        self.value <= self.limit
    }

    /// The number of increments so far.
    pub closed spec fn value(&self) -> nat {
        self.value as nat
    }

    /// The number of tasks in the run: the count never passes it.
    pub closed spec fn limit(&self) -> nat {
        self.limit as nat
    }

    /// A counter at zero for a run of `limit` tasks.
    pub fn new(limit: u64) -> (c: CompletionCounter)
        ensures
            c.value() == 0,
            c.limit() == limit,
    {
        CompletionCounter { value: 0, limit }
    }

    /// Adds one finished task and returns the new count.
    pub fn increment(&mut self) -> (r: u64)
        requires
            old(self).value() < old(self).limit(),
        ensures
            final(self).value() == old(self).value() + 1,
            final(self).limit() == old(self).limit(),
            r == final(self).value(),
            final(self).value() <= final(self).limit(),
    {
        proof {
            use_type_invariant(&*self);
        }
        self.value = self.value + 1;
        self.value
    }

    /// The current count, which never exceeds the limit.
    pub fn get(&self) -> (r: u64)
        ensures
            r == self.value(),
            self.value() <= self.limit(),
    {
        proof {
            use_type_invariant(self);
        }
        self.value
    }

    /// The limit the counter was made with.
    pub fn limit_of(&self) -> (r: u64)
        ensures
            r == self.limit(),
    {
        self.limit
    }
}

} // verus!
