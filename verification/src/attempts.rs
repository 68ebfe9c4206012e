//! How often a login may fail before the session is over.

use vstd::prelude::*;

verus! {

/// The number of failed attempts that ends a session.
pub const MAX_TRIES: u32 = 3;

/// What the prompt does after an attempt.
#[derive(Clone, Copy, Debug, PartialEq, Eq, Structural)]
pub enum Prompt {
    /// The attempt succeeded: greet the user and stop asking.
    Welcome,
    /// The attempt failed: ask again.
    Retry,
    /// The attempt failed once too often: stop asking.
    GiveUp,
}

/// A login session: counts the attempts that failed.
#[derive(Debug)]
pub struct Session {
    tries: u32,
}

impl View for Session {
    type V = nat;

    /// The number of attempts that have failed.
    closed spec fn view(&self) -> nat {
        self.tries as nat
    }
}

impl Session {
    /// What a session says after an attempt, given the failures before it.
    pub open spec fn verdict(failed_before: nat, granted: bool) -> Prompt {
        if granted {
            Prompt::Welcome
        } else if failed_before + 1 >= MAX_TRIES {
            Prompt::GiveUp
        } else {
            Prompt::Retry
        }
    }

    /// The failures on record after an attempt. Once the session is over
    /// nothing more is counted.
    pub open spec fn failures_after(failed_before: nat, granted: bool) -> nat {
        if granted || failed_before >= MAX_TRIES {
            failed_before
        } else {
            failed_before + 1
        }
    }

    /// A session in which nothing has failed yet.
    pub fn new() -> (session: Session)
        ensures
            session@ == 0,
    {
        Session { tries: 0 }
    }

    /// The number of attempts that have failed.
    pub fn tries(&self) -> (tries: u32)
        ensures
            tries == self@,
    {
        self.tries
    }

    /// Takes note of an attempt and says how the prompt goes on.
    pub fn record(&mut self, granted: bool) -> (next: Prompt)
        ensures
            next == Session::verdict(old(self)@, granted),
            final(self)@ == Session::failures_after(old(self)@, granted),
    {
        if granted {
            Prompt::Welcome
        } else {
            if self.tries < MAX_TRIES {
                self.tries = self.tries + 1;
            }
            if self.tries >= MAX_TRIES {
                Prompt::GiveUp
            } else {
                Prompt::Retry
            }
        }
    }
}

} // verus!
