//! The trial as a state machine.
//!
//! A trial is a counter shared by a fixed set of workers, each of which has a
//! quota of increments to issue. Workers take turns in whatever order a
//! scheduler picks; the order is the only thing that is left open. What a
//! turn is depends on the strategy:
//!
//! - Atomic: a turn is a whole increment.
//! - Unsynchronized: a turn is half of one. First the worker copies the
//!   counter into its own register; on a later turn it writes the register
//!   plus one back, whatever the counter holds by then.
//! - Mutex: the same two halves, but the first also takes the lock and the
//!   second gives it back, and a worker that finds the lock taken by another
//!   gets nowhere on its turn.

use vstd::prelude::*;
use crate::strategy::Strategy;
use crate::workload::Workload;

verus! {

/// One worker in the middle of a trial.
pub struct WorkerState {
    /// The increments this worker has finished.
    pub completed: nat,
    /// The value this worker has read and not yet written back, if it is
    /// halfway through an increment.
    pub register: Option<nat>,
}

/// A trial in flight.
pub struct TrialState {
    pub strategy: Strategy,
    /// The increments each worker has to issue.
    pub quota: nat,
    /// What the shared counter holds.
    pub value: nat,
    /// The worker that holds the counter's lock, if one does.
    pub holder: Option<int>,
    pub workers: Seq<WorkerState>,
}

/// The increments finished by all of `workers` together.
pub open spec fn completed_total(workers: Seq<WorkerState>) -> nat
    decreases workers.len(),
{
    if workers.len() == 0 {
        0
    } else {
        completed_total(workers.drop_last()) + workers.last().completed
    }
}

impl WorkerState {
    /// A worker that has not started.
    pub open spec fn fresh() -> WorkerState {
        WorkerState { completed: 0, register: None }
    }

    /// The worker after it has finished the increment it was at.
    pub open spec fn advanced(self) -> WorkerState {
        WorkerState { completed: self.completed + 1, register: None }
    }
}

impl TrialState {
    /// The trial before any worker has taken a turn: the counter at zero, the
    /// lock free and every worker fresh.
    pub open spec fn initial(strategy: Strategy, workload: Workload) -> TrialState {
        TrialState {
            strategy,
            quota: workload.increments_per_worker as nat,
            value: 0,
            holder: None,
            workers: Seq::new(workload.worker_count as nat, |w: int| WorkerState::fresh()),
        }
    }

    /// Whether `worker` names a worker that has not used its quota up.
    pub open spec fn has_work(self, worker: int) -> bool {
        0 <= worker < self.workers.len() && self.workers[worker].completed < self.quota
    }

    /// Whether the lock is in `worker`'s way: another worker holds it.
    pub open spec fn blocked(self, worker: int) -> bool {
        match self.holder {
            Some(holder) => self.strategy == Strategy::Mutex && holder != worker,
            None => false,
        }
    }

    /// Whether a turn given to `worker` gets it anywhere.
    pub open spec fn can_move(self, worker: int) -> bool {
        self.has_work(worker) && !self.blocked(worker)
    }

    /// The trial after `worker` has been given one turn. A turn given to a
    /// worker that cannot move changes nothing.
    pub open spec fn step(self, worker: int) -> TrialState {
        if !self.can_move(worker) {
            self
        } else {
            let w = self.workers[worker];
            match self.strategy {
                Strategy::Atomic => TrialState {
                    value: self.value + 1,
                    workers: self.workers.update(worker, w.advanced()),
                    ..self
                },
                Strategy::Mutex => match w.register {
                    None => TrialState {
                        holder: Some(worker),
                        workers: self.workers.update(
                            worker,
                            WorkerState { register: Some(self.value), ..w },
                        ),
                        ..self
                    },
                    Some(seen) => TrialState {
                        value: seen + 1,
                        holder: None,
                        workers: self.workers.update(worker, w.advanced()),
                        ..self
                    },
                },
                Strategy::Unsynchronized => match w.register {
                    None => TrialState {
                        workers: self.workers.update(
                            worker,
                            WorkerState { register: Some(self.value), ..w },
                        ),
                        ..self
                    },
                    Some(seen) => TrialState {
                        value: seen + 1,
                        workers: self.workers.update(worker, w.advanced()),
                        ..self
                    },
                },
            }
        }
    }

    /// The trial after the turns of `schedule` have been given in order.
    pub open spec fn run(self, schedule: Seq<int>) -> TrialState
        decreases schedule.len(),
    {
        if schedule.len() == 0 {
            self
        } else {
            self.run(schedule.drop_last()).step(schedule.last())
        }
    }

    /// Whether every worker has used its quota up.
    pub open spec fn finished(self) -> bool {
        forall|w: int| !self.has_work(w)
    }

    /// The number of turns `worker` needs to use its quota up.
    pub open spec fn turns_left(self, worker: int) -> nat {
        if !self.has_work(worker) {
            0
        } else {
            let w = self.workers[worker];
            let todo = (self.quota - w.completed) as nat;
            if self.strategy == Strategy::Atomic {
                todo
            } else if w.register is Some {
                (2 * todo - 1) as nat
            } else {
                2 * todo
            }
        }
    }

    /// The trial after `worker` has taken turn after turn, with no other
    /// worker in between, for as long as it could move.
    pub open spec fn run_worker(self, worker: int) -> TrialState
        decreases self.turns_left(worker),
    {
        if self.can_move(worker) {
            self.step(worker).run_worker(worker)
        } else {
            self
        }
    }

    /// The trial after the first `count` workers have run as far as they
    /// could, one after the other in the order of the workers.
    pub open spec fn settle_first(self, count: nat) -> TrialState
        decreases count,
    {
        if count == 0 {
            self
        } else {
            self.settle_first((count - 1) as nat).run_worker(count - 1)
        }
    }

    /// The trial after the worker that holds the lock, if one does, has been
    /// given a turn.
    pub open spec fn unblock(self) -> TrialState {
        match self.holder {
            Some(holder) => self.step(holder),
            None => self,
        }
    }

    /// The trial brought to its end: first the worker that holds the lock
    /// gets the turn it needs to give the lock back, then every worker, in the
    /// order of the workers, takes all the turns it has left.
    pub open spec fn settle(self) -> TrialState {
        self.unblock().settle_first(self.workers.len())
    }

    /// The increments that have been finished so far, by all workers together.
    pub open spec fn completed(self) -> nat {
        completed_total(self.workers)
    }

    /// The total the trial is heading for: every worker's quota.
    pub open spec fn target(self) -> nat {
        self.workers.len() * self.quota
    }

    /// Whether the workers and the lock are in a state that turns can lead
    /// to. No worker is past its quota. One that holds a value in its
    /// register is halfway through an increment that comes in two halves.
    /// The lock is held only under the mutex strategy, and there by exactly
    /// the worker that is halfway through an increment.
    pub open spec fn well_formed(self) -> bool {
        &&& forall|w: int|
            0 <= w < self.workers.len() ==> {
                let worker = #[trigger] self.workers[w];
                &&& worker.completed <= self.quota
                &&& worker.register is Some ==> self.strategy != Strategy::Atomic
                    && worker.completed < self.quota
                &&& self.strategy == Strategy::Mutex ==> (worker.register is Some <==> self.holder
                    == Some(w))
            }
        &&& match self.holder {
            Some(holder) => self.strategy == Strategy::Mutex && 0 <= holder < self.workers.len(),
            None => true,
        }
    }

    /// Whether the counter, and every value a worker is about to build on,
    /// is at least `slack` short of the increments finished so far.
    pub open spec fn lags_by(self, slack: nat) -> bool {
        &&& self.value + slack <= self.completed()
        &&& forall|w: int|
            0 <= w < self.workers.len() ==> match (#[trigger] self.workers[w]).register {
                Some(seen) => seen + slack <= self.completed(),
                None => true,
            }
    }

    /// Whether the counter holds exactly the increments finished so far, and
    /// every worker that is halfway through an increment has read the counter
    /// as it stands now.
    pub open spec fn exact(self) -> bool {
        &&& self.value == self.completed()
        &&& forall|w: int|
            0 <= w < self.workers.len() ==> match (#[trigger] self.workers[w]).register {
                Some(seen) => seen == self.value,
                None => true,
            }
    }

    /// What holds of every trial from its start on: it is well formed, the
    /// counter never runs ahead of the finished increments, and under a
    /// synchronized strategy it never falls behind them either.
    pub open spec fn consistent(self) -> bool {
        &&& self.well_formed()
        &&& self.lags_by(0)
        &&& self.strategy.is_synchronized() ==> self.exact()
    }

    /// Whether no worker is halfway through an increment.
    pub open spec fn quiescent(self) -> bool {
        forall|w: int| 0 <= w < self.workers.len() ==> (#[trigger] self.workers[w]).register is None
    }
}

} // verus!
