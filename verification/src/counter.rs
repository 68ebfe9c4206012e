//! The counter that a trial's workers share.

use vstd::prelude::*;
use crate::strategy::Strategy;

verus! {

/// A counter, together with the strategy that decides how workers get at it,
/// and the lock that the mutex strategy guards it with.
///
/// Whoever holds the counter exclusively can issue a whole increment in one
/// go. The strategies that build an increment from a read and a later write
/// also hand out those two halves separately (`begin_increment` and
/// `finish_increment`), so that other workers can come between them: under
/// the mutex strategy the lock keeps them out, without synchronization
/// nothing does.
#[derive(Debug)]
pub struct SharedCounter {
    strategy: Strategy,
    value: u64,
    holder: Option<usize>,
}

impl View for SharedCounter {
    type V = nat;

    /// The value the counter holds.
    closed spec fn view(&self) -> nat {
        self.value as nat
    }
}

impl SharedCounter {
    /// The counter that `new` makes.
    pub closed spec fn spec_new(strategy: Strategy) -> SharedCounter {
        SharedCounter { strategy, value: 0, holder: None }
    }

    /// The strategy the counter was made for.
    pub closed spec fn spec_strategy(&self) -> Strategy {
        self.strategy
    }

    /// What `load` reads.
    pub open spec fn spec_load(&self) -> u64 {
        self@ as u64
    }

    /// The worker that holds the lock, if one does.
    pub closed spec fn spec_holder(&self) -> Option<usize> {
        self.holder
    }

    /// Whether the lock is in `worker`'s way: another worker holds it.
    pub open spec fn blocks(&self, worker: usize) -> bool {
        match self.holder() {
            Some(holder) => self.strategy() == Strategy::Mutex && holder != worker,
            None => false,
        }
    }

    /// A counter at zero, with its lock free.
    #[verifier::when_used_as_spec(spec_new)]
    pub fn new(strategy: Strategy) -> (counter: SharedCounter)
        ensures
            counter == SharedCounter::spec_new(strategy),
            counter@ == 0,
            counter.strategy() == strategy,
            counter.holder() is None,
    {
        SharedCounter { strategy, value: 0, holder: None }
    }

    #[verifier::when_used_as_spec(spec_strategy)]
    pub fn strategy(&self) -> (strategy: Strategy)
        ensures
            strategy == self.spec_strategy(),
    {
        self.strategy
    }

    /// Reads the counter.
    #[verifier::when_used_as_spec(spec_load)]
    pub fn load(&self) -> (value: u64)
        ensures
            value == self.spec_load(),
            value == self@,
    {
        self.value
    }

    /// The worker that holds the lock, if one does.
    #[verifier::when_used_as_spec(spec_holder)]
    pub fn holder(&self) -> (holder: Option<usize>)
        ensures
            holder == self.spec_holder(),
    {
        self.holder
    }

    /// One whole increment: the counter goes up by exactly one.
    pub fn increment(&mut self)
        requires
            old(self)@ < u64::MAX,
            old(self).holder() is None,
        ensures
            final(self)@ == old(self)@ + 1,
            final(self).strategy() == old(self).strategy(),
            final(self).holder() is None,
    {
        self.value = self.value + 1;
    }

    /// The first half of an increment by `worker`: reads the counter. Under
    /// the mutex strategy the worker takes the lock first; if another worker
    /// holds it, nothing is read and nothing changes.
    pub fn begin_increment(&mut self, worker: usize) -> (seen: Option<u64>)
        requires
            old(self).strategy() != Strategy::Atomic,
        ensures
            final(self)@ == old(self)@,
            final(self).strategy() == old(self).strategy(),
            old(self).blocks(worker) ==> seen is None && final(self).holder() == old(self).holder(),
            !old(self).blocks(worker) ==> seen == Some(old(self)@ as u64) && final(self).holder()
                == if old(self).strategy() == Strategy::Mutex {
                Some(worker)
            } else {
                old(self).holder()
            },
    {
        match self.strategy {
            Strategy::Mutex => {
                match self.holder {
                    Some(holder) => {
                        if holder != worker {
                            return None;
                        }
                    },
                    None => {
                        self.holder = Some(worker);
                    },
                }
            },
            _ => {},
        }
        Some(self.value)
    }

    /// The second half of an increment by `worker`: writes back one more
    /// than the value `seen` in the first half, over whatever the counter
    /// holds by now. Under the mutex strategy the worker then gives the lock
    /// back.
    pub fn finish_increment(&mut self, worker: usize, seen: u64)
        requires
            old(self).strategy() != Strategy::Atomic,
            old(self).strategy() == Strategy::Mutex ==> old(self).holder() == Some(worker),
            seen < u64::MAX,
        ensures
            final(self)@ == seen + 1,
            final(self).strategy() == old(self).strategy(),
            final(self).holder() == if old(self).strategy() == Strategy::Mutex {
                None
            } else {
                old(self).holder()
            },
    {
        self.value = seen + 1;
        match self.strategy {
            Strategy::Mutex => {
                self.holder = None;
            },
            _ => {},
        }
    }
}

/// A counter that has just been made reads as zero.
pub proof fn lemma_fresh_counter_loads_zero(strategy: Strategy)
    ensures
        SharedCounter::new(strategy).load() == 0,
{
}

} // verus!
