//! The synchronization strategies a shared counter can be driven by.

use vstd::prelude::*;
use crate::text::same_text;

verus! {

/// How concurrent increments of a shared counter are coordinated.
#[derive(Clone, Copy, Debug, PartialEq, Eq, Structural)]
pub enum Strategy {
    /// A single lock-free fetch-and-add per increment.
    Atomic,
    /// A read-modify-write inside a critical section guarded by a lock.
    Mutex,
    /// A plain read followed by a plain write, with nothing in between to
    /// keep other workers out.
    Unsynchronized,
}

impl Strategy {
    /// Whether every increment issued under this strategy takes effect as one
    /// indivisible step.
    pub open spec fn is_synchronized(self) -> bool {
        self != Strategy::Unsynchronized
    }

    /// The name a strategy goes by.
    pub open spec fn spec_name(self) -> Seq<char> {
        match self {
            Strategy::Atomic => "atomic"@,
            Strategy::Mutex => "mutex"@,
            Strategy::Unsynchronized => "unsynchronized"@,
        }
    }

    /// The strategy that goes by `name`, if there is one.
    pub open spec fn named(name: Seq<char>) -> Option<Strategy> {
        if name == "atomic"@ {
            Some(Strategy::Atomic)
        } else if name == "mutex"@ {
            Some(Strategy::Mutex)
        } else if name == "unsynchronized"@ {
            Some(Strategy::Unsynchronized)
        } else {
            None
        }
    }

    /// The name of the strategy: `atomic`, `mutex` or `unsynchronized`.
    pub fn name(&self) -> (name: &'static str)
        ensures
            name@ == self.spec_name(),
    {
        match self {
            Strategy::Atomic => "atomic",
            Strategy::Mutex => "mutex",
            Strategy::Unsynchronized => "unsynchronized",
        }
    }

    /// Looks a strategy up by its name. Names are matched exactly.
    pub fn from_name(name: &str) -> (found: Option<Strategy>)
        ensures
            found == Strategy::named(name@),
    {
        if same_text(name, "atomic") {
            Some(Strategy::Atomic)
        } else if same_text(name, "mutex") {
            Some(Strategy::Mutex)
        } else if same_text(name, "unsynchronized") {
            Some(Strategy::Unsynchronized)
        } else {
            None
        }
    }

    /// Tells whether the strategy promises that no increment is ever lost.
    pub fn guarantees_exact_count(&self) -> (exact: bool)
        ensures
            exact == self.is_synchronized(),
    {
        match self {
            Strategy::Atomic => true,
            Strategy::Mutex => true,
            Strategy::Unsynchronized => false,
        }
    }
}

/// Every strategy is found again under its own name.
pub proof fn lemma_name_round_trip(strategy: Strategy)
    ensures
        Strategy::named(strategy.spec_name()) == Some(strategy),
{
    reveal_strlit("atomic");
    reveal_strlit("mutex");
    reveal_strlit("unsynchronized");
    assert("atomic"@.len() == 6);
    assert("mutex"@.len() == 5);
    assert("unsynchronized"@.len() == 14);
}

} // verus!
