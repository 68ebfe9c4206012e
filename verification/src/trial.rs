//! Running a trial turn by turn.
//!
//! A `Trial` is the state machine of `model` in executable form. Whoever
//! drives it plays the scheduler: each call of `step` gives one worker one
//! turn. `run` plays a whole schedule and then lets every worker finish, so
//! that a trial never reports a partial result.

use vstd::prelude::*;
use crate::counter::SharedCounter;
use crate::laws::{
    lemma_completed_total_bounds, lemma_completed_total_update, lemma_initial_is_consistent,
    lemma_no_trial_overcounts, lemma_settle_first, lemma_step_keeps_consistent,
    lemma_synchronized_trials_are_exact, lemma_unblock,
};
use crate::model::{TrialState, WorkerState};
use crate::strategy::Strategy;
use crate::workload::{ConfigError, TrialResult, Workload};

verus! {

/// One worker of a running trial.
#[derive(Clone, Copy, Debug)]
struct Worker {
    completed: usize,
    register: Option<u64>,
}

impl View for Worker {
    type V = WorkerState;

    closed spec fn view(&self) -> WorkerState {
        WorkerState {
            completed: self.completed as nat,
            register: match self.register {
                Some(seen) => Some(seen as nat),
                None => None,
            },
        }
    }
}

/// A trial in flight: the shared counter and the workers that increment it.
#[derive(Debug)]
pub struct Trial {
    counter: SharedCounter,
    workload: Workload,
    expected: u64,
    completed: u64,
    workers: Vec<Worker>,
}

/// The schedule that a list of worker indices stands for.
pub open spec fn as_schedule(order: Seq<usize>) -> Seq<int> {
    order.map_values(|worker: usize| worker as int)
}

impl View for Trial {
    type V = TrialState;

    closed spec fn view(&self) -> TrialState {
        TrialState {
            strategy: self.counter.strategy(),
            quota: self.workload.increments_per_worker as nat,
            value: self.counter@,
            holder: match self.counter.holder() {
                Some(holder) => Some(holder as int),
                None => None,
            },
            workers: Seq::new(self.workers@.len(), |w: int| self.workers@[w]@),
        }
    }
}

impl Trial {
    /// What `start` establishes and every turn keeps.
    pub closed spec fn wf(&self) -> bool {
        &&& self.workers@.len() == self.workload.worker_count
        &&& self.workload.checked_total() == Ok::<u64, ConfigError>(self.expected)
        &&& self.completed == self@.completed()
        &&& self@.consistent()
    }

    /// The workload the trial was started with.
    pub closed spec fn workload(&self) -> Workload {
        self.workload
    }

    proof fn lemma_wf(&self)
        requires
            self.wf(),
        ensures
            self@.workers.len() == self.workload.worker_count,
            self@.quota == self.workload.increments_per_worker,
            self@.target() == self.expected,
            self@.completed() <= self.expected,
            self@.value <= self@.completed(),
            self@.finished() <==> self@.completed() == self.expected,
    {
        let state = self@;
        lemma_completed_total_bounds(state.workers, state.quota);
        if state.completed() == state.target() {
            assert forall|w: int| !state.has_work(w) by {
                if 0 <= w < state.workers.len() {
                    assert(state.workers[w].completed == state.quota);
                }
            }
        }
        if state.finished() {
            assert forall|w: int| 0 <= w < state.workers.len() implies (
            #[trigger] state.workers[w]).completed == state.quota by {
                assert(!state.has_work(w));
            }
        }
    }

    /// Sets a trial up: the counter at zero, and one fresh worker for each
    /// that the workload names. A workload that cannot be run is turned down
    /// before anything is made.
    pub fn start(strategy: Strategy, workload: Workload) -> (started: Result<Trial, ConfigError>)
        ensures
            match workload.checked_total() {
                Ok(_) => started is Ok && started->Ok_0.wf() && started->Ok_0@
                    == TrialState::initial(strategy, workload) && started->Ok_0.workload()
                    == workload,
                Err(reason) => started == Err::<Trial, ConfigError>(reason),
            },
    {
        let expected = match workload.expected_total() {
            Ok(total) => total,
            Err(reason) => {
                return Err(reason);
            },
        };
        let mut workers: Vec<Worker> = Vec::new();
        let mut made: usize = 0;
        while made < workload.worker_count
            invariant
                made <= workload.worker_count,
                workers@.len() == made,
                forall|w: int|
                    0 <= w < workers@.len() ==> (#[trigger] workers@[w])@ == WorkerState::fresh(),
            decreases workload.worker_count - made,
        {
            workers.push(Worker { completed: 0, register: None });
            made = made + 1;
        }
        let trial = Trial {
            counter: SharedCounter::new(strategy),
            workload,
            expected,
            completed: 0,
            workers,
        };
        proof {
            lemma_initial_is_consistent(strategy, workload);
            assert(trial@.workers =~= TrialState::initial(strategy, workload).workers);
        }
        Ok(trial)
    }

    /// Gives `worker` one turn and tells whether that got the worker
    /// anywhere. It does not if `worker` names no worker, if the worker has
    /// used its quota up, or if another worker holds the lock.
    pub fn step(&mut self, worker: usize) -> (moved: bool)
        requires
            old(self).wf(),
        ensures
            final(self).wf(),
            final(self).workload() == old(self).workload(),
            final(self)@ == old(self)@.step(worker as int),
            moved == old(self)@.can_move(worker as int),
    {
        if worker >= self.workers.len() {
            return false;
        }
        let current = self.workers[worker];
        if current.completed >= self.workload.increments_per_worker {
            return false;
        }
        let ghost before = self@;
        proof {
            self.lemma_wf();
            lemma_step_keeps_consistent(before, worker as int);
            assert(before.workers[worker as int] == current@);
            assert(before.has_work(worker as int));
        }
        let advanced = Worker { completed: current.completed + 1, register: None };
        match self.counter.strategy() {
            Strategy::Atomic => {
                self.counter.increment();
                self.workers.set(worker, advanced);
                self.completed = self.completed + 1;
            },
            _ => match current.register {
                None => match self.counter.begin_increment(worker) {
                    Some(seen) => {
                        self.workers.set(
                            worker,
                            Worker { completed: current.completed, register: Some(seen) },
                        );
                    },
                    None => {
                        return false;
                    },
                },
                Some(seen) => {
                    self.counter.finish_increment(worker, seen);
                    self.workers.set(worker, advanced);
                    self.completed = self.completed + 1;
                },
            },
        }
        proof {
            assert(self@.workers =~= before.step(worker as int).workers);
            assert(self@ == before.step(worker as int));
            lemma_completed_total_update(before.workers, worker as int, self@.workers[worker as int]);
        }
        true
    }

    /// Lets `worker` take turn after turn for as long as it can move.
    pub fn run_worker(&mut self, worker: usize)
        requires
            old(self).wf(),
        ensures
            final(self).wf(),
            final(self).workload() == old(self).workload(),
            final(self)@ == old(self)@.run_worker(worker as int),
    {
        let mut moved = true;
        while moved
            invariant
                self.wf(),
                self.workload() == old(self).workload(),
                moved ==> self@.run_worker(worker as int) == old(self)@.run_worker(worker as int),
                !moved ==> self@ == old(self)@.run_worker(worker as int),
            decreases self@.turns_left(worker as int) + if moved { 1nat } else { 0nat },
        {
            moved = self.step(worker);
        }
    }

    /// Brings the trial to its end: first the worker that holds the lock, if
    /// one does, gets the turn it needs to give the lock back, then every
    /// worker, in the order of the workers, takes all the turns it has left.
    pub fn settle(&mut self)
        requires
            old(self).wf(),
        ensures
            final(self).wf(),
            final(self).workload() == old(self).workload(),
            final(self)@ == old(self)@.settle(),
            final(self)@.finished(),
    {
        proof {
            old(self).lemma_wf();
            lemma_unblock(old(self)@, 0);
        }
        match self.counter.holder() {
            Some(holder) => {
                self.step(holder);
            },
            None => {},
        }
        let count = self.workers.len();
        let mut worker: usize = 0;
        while worker < count
            invariant
                self.wf(),
                self.workload() == old(self).workload(),
                worker <= count,
                count == old(self)@.workers.len(),
                self@ == old(self)@.unblock().settle_first(worker as nat),
            decreases count - worker,
        {
            self.run_worker(worker);
            worker = worker + 1;
        }
        proof {
            lemma_settle_first(old(self)@.unblock(), count as nat, 0);
        }
    }

    /// Whether every worker has used its quota up.
    pub fn is_finished(&self) -> (finished: bool)
        requires
            self.wf(),
        ensures
            finished == self@.finished(),
    {
        proof {
            self.lemma_wf();
        }
        self.completed == self.expected
    }

    /// What the counter holds at this point of the trial.
    pub fn observed(&self) -> (value: u64)
        requires
            self.wf(),
        ensures
            value == self@.value,
    {
        self.counter.load()
    }

    /// Ends the trial and reports it. Workers that still have turns to take
    /// take them first, one after the other, so that the report is never a
    /// partial one.
    pub fn finish(self) -> (report: TrialResult)
        requires
            self.wf(),
        ensures
            report.expected_total == self.workload().total(),
            report.observed_total == self@.settle().value,
    {
        let mut trial = self;
        trial.settle();
        TrialResult { expected_total: trial.expected, observed_total: trial.counter.load() }
    }
}

/// Runs one trial: `workload.worker_count` workers, each issuing
/// `workload.increments_per_worker` increments on one counter that starts at
/// zero, with the turns given in the order that `schedule` gives. A turn for
/// a worker that cannot move (there is no such worker, it is done, or the
/// lock is in its way) is passed over. When the schedule is used up, the
/// workers that are not done finish one after the other.
///
/// A workload without workers, or one whose total does not fit 64 bits, is
/// turned down before any increment happens.
pub fn run(strategy: Strategy, workload: Workload, schedule: &[usize]) -> (outcome: Result<
    TrialResult,
    ConfigError,
>)
    ensures
        outcome == match workload.checked_total() {
            Ok(total) => Ok(
                TrialResult {
                    expected_total: total,
                    observed_total: TrialState::initial(strategy, workload).run(
                        as_schedule(schedule@),
                    ).settle().value as u64,
                },
            ),
            Err(reason) => Err(reason),
        },
        outcome matches Ok(report) ==> report.observed_total <= report.expected_total,
        outcome matches Ok(report) ==> strategy.is_synchronized() ==> report.observed_total
            == report.expected_total,
{
    let mut trial = match Trial::start(strategy, workload) {
        Ok(trial) => trial,
        Err(reason) => {
            return Err(reason);
        },
    };
    let mut turn: usize = 0;
    while turn < schedule.len()
        invariant
            trial.wf(),
            trial.workload() == workload,
            turn <= schedule@.len(),
            trial@ == TrialState::initial(strategy, workload).run(
                as_schedule(schedule@).take(turn as int),
            ),
        decreases schedule@.len() - turn,
    {
        proof {
            let order = as_schedule(schedule@);
            assert(order.take(turn + 1).drop_last() =~= order.take(turn as int));
            assert(order.take(turn + 1).last() == schedule@[turn as int] as int);
        }
        trial.step(schedule[turn]);
        turn = turn + 1;
    }
    proof {
        assert(as_schedule(schedule@).take(turn as int) =~= as_schedule(schedule@));
        lemma_no_trial_overcounts(strategy, workload, as_schedule(schedule@));
        if strategy.is_synchronized() {
            lemma_synchronized_trials_are_exact(strategy, workload, as_schedule(schedule@));
        }
    }
    Ok(trial.finish())
}

} // verus!
