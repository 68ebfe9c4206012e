//! What a trial is asked to do, and what it reports.

use vstd::prelude::*;

verus! {

/// How much work a trial hands out: `worker_count` workers, each of which
/// issues `increments_per_worker` increments.
#[derive(Clone, Copy, Debug, PartialEq, Eq, Structural)]
pub struct Workload {
    pub worker_count: usize,
    pub increments_per_worker: usize,
}

/// Why a workload cannot be run.
#[derive(Clone, Copy, Debug, PartialEq, Eq, Structural)]
pub enum ConfigError {
    /// The workload names no worker at all.
    NoWorkers,
    /// The number of increments the workload issues does not fit the
    /// counter's 64 bits.
    TotalOverflow,
}

/// What one trial found: the number of increments that were issued and the
/// value the counter held once every worker was done.
#[derive(Clone, Copy, Debug, PartialEq, Eq, Structural)]
pub struct TrialResult {
    pub expected_total: u64,
    pub observed_total: u64,
}

impl Workload {
    /// The number of increments issued by all workers together.
    pub open spec fn total(self) -> nat {
        (self.worker_count * self.increments_per_worker) as nat
    }

    /// The verdict on a workload: the total it is expected to reach, or the
    /// reason it is turned down. A workload without workers is turned down
    /// first.
    pub open spec fn checked_total(self) -> Result<u64, ConfigError> {
        if self.worker_count == 0 {
            Err(ConfigError::NoWorkers)
        } else if self.total() > u64::MAX {
            Err(ConfigError::TotalOverflow)
        } else {
            Ok(self.total() as u64)
        }
    }

    /// Whether the workload can be run.
    pub open spec fn is_valid(self) -> bool {
        self.checked_total() is Ok
    }

    pub fn new(worker_count: usize, increments_per_worker: usize) -> (workload: Workload)
        ensures
            workload == (Workload { worker_count, increments_per_worker }),
    {
        Workload { worker_count, increments_per_worker }
    }

    /// Validates the workload and computes the total that a trial without
    /// lost updates must observe.
    pub fn expected_total(&self) -> (verdict: Result<u64, ConfigError>)
        ensures
            verdict == self.checked_total(),
    {
        if self.worker_count == 0 {
            return Err(ConfigError::NoWorkers);
        }
        let workers: u64 = self.worker_count as u64;
        let each: u64 = self.increments_per_worker as u64;
        match workers.checked_mul(each) {
            Some(total) => Ok(total),
            None => Err(ConfigError::TotalOverflow),
        }
    }
}

impl ConfigError {
    /// A one-line description for reports.
    pub fn describe(&self) -> (text: &'static str)
        ensures
            text@ == match *self {
                ConfigError::NoWorkers => "a trial needs at least one worker"@,
                ConfigError::TotalOverflow => "the workload issues more increments than a 64-bit counter can hold"@,
            },
    {
        match self {
            ConfigError::NoWorkers => "a trial needs at least one worker",
            ConfigError::TotalOverflow => "the workload issues more increments than a 64-bit counter can hold",
        }
    }
}

impl TrialResult {
    /// The number of increments that left no trace in the counter.
    pub open spec fn lost(self) -> nat {
        if self.observed_total <= self.expected_total {
            (self.expected_total - self.observed_total) as nat
        } else {
            0
        }
    }

    /// Whether the counter ended at exactly the number of increments issued.
    pub fn is_exact(&self) -> (exact: bool)
        ensures
            exact == (self.observed_total == self.expected_total),
    {
        self.observed_total == self.expected_total
    }

    /// How many increments were lost on the way.
    pub fn lost_updates(&self) -> (lost: u64)
        ensures
            lost == self.lost(),
    {
        if self.observed_total <= self.expected_total {
            self.expected_total - self.observed_total
        } else {
            0
        }
    }
}

} // verus!
