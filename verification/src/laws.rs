//! What holds of every trial, whatever the scheduler does.

use vstd::prelude::*;
use crate::model::{completed_total, TrialState, WorkerState};
use crate::strategy::Strategy;
use crate::workload::Workload;

verus! {

/// Replacing one worker changes the finished total by the difference between
/// the new worker's count and the old one's.
pub proof fn lemma_completed_total_update(workers: Seq<WorkerState>, i: int, w: WorkerState)
    requires
        0 <= i < workers.len(),
    ensures
        completed_total(workers.update(i, w)) + workers[i].completed == completed_total(workers)
            + w.completed,
    decreases workers.len(),
{
    let updated = workers.update(i, w);
    if i == workers.len() - 1 {
        assert(updated.drop_last() =~= workers.drop_last());
    } else {
        assert(updated.drop_last() =~= workers.drop_last().update(i, w));
        lemma_completed_total_update(workers.drop_last(), i, w);
    }
}

/// Workers that stay within their quota finish at most the quota each, and
/// reach that total only when every one of them has used its quota up.
pub proof fn lemma_completed_total_bounds(workers: Seq<WorkerState>, quota: nat)
    requires
        forall|w: int| 0 <= w < workers.len() ==> (#[trigger] workers[w]).completed <= quota,
    ensures
        completed_total(workers) <= workers.len() * quota,
        completed_total(workers) == workers.len() * quota <==> forall|w: int|
            0 <= w < workers.len() ==> (#[trigger] workers[w]).completed == quota,
    decreases workers.len(),
{
    if workers.len() > 0 {
        let front = workers.drop_last();
        lemma_completed_total_bounds(front, quota);
        assert(workers.len() * quota == front.len() * quota + quota) by (nonlinear_arith)
            requires
                workers.len() == front.len() + 1,
        ;
        if completed_total(workers) == workers.len() * quota {
            assert forall|w: int| 0 <= w < workers.len() implies (#[trigger] workers[w]).completed
                == quota by {
                if w < front.len() {
                    assert(front[w] == workers[w]);
                }
            }
        }
        if forall|w: int| 0 <= w < workers.len() ==> (#[trigger] workers[w]).completed == quota {
            assert forall|w: int| 0 <= w < front.len() implies (#[trigger] front[w]).completed
                == quota by {
                assert(front[w] == workers[w]);
            }
        }
    } else {
        assert(workers.len() * quota == 0) by (nonlinear_arith)
            requires
                workers.len() == 0,
        ;
    }
}

proof fn lemma_fresh_workers_completed_nothing(workers: Seq<WorkerState>)
    requires
        forall|w: int| 0 <= w < workers.len() ==> (#[trigger] workers[w]).completed == 0,
    ensures
        completed_total(workers) == 0,
    decreases workers.len(),
{
    if workers.len() > 0 {
        let front = workers.drop_last();
        assert forall|w: int| 0 <= w < front.len() implies (#[trigger] front[w]).completed
            == 0 by {
            assert(front[w] == workers[w]);
        }
        lemma_fresh_workers_completed_nothing(front);
    }
}

/// A trial starts out consistent, with nothing finished, the lock free and
/// no worker halfway through an increment.
pub proof fn lemma_initial_is_consistent(strategy: Strategy, workload: Workload)
    ensures
        TrialState::initial(strategy, workload).consistent(),
        TrialState::initial(strategy, workload).quiescent(),
        TrialState::initial(strategy, workload).holder is None,
        TrialState::initial(strategy, workload).completed() == 0,
        TrialState::initial(strategy, workload).target() == workload.total(),
{
    let start = TrialState::initial(strategy, workload);
    lemma_fresh_workers_completed_nothing(start.workers);
}

/// A turn keeps a trial well formed, and finishes at most one increment.
pub proof fn lemma_step_keeps_form(state: TrialState, worker: int)
    requires
        state.well_formed(),
    ensures
        state.step(worker).well_formed(),
        state.completed() <= state.step(worker).completed() <= state.completed() + 1,
        !state.blocked(worker) ==> !state.step(worker).blocked(worker),
{
    let next = state.step(worker);
    if state.can_move(worker) {
        lemma_completed_total_update(state.workers, worker, next.workers[worker]);
        assert(state.workers[worker].register is Some && state.strategy == Strategy::Mutex
            ==> state.holder == Some(worker));
        assert forall|w: int| 0 <= w < next.workers.len() implies {
            let after = #[trigger] next.workers[w];
            &&& after.completed <= next.quota
            &&& after.register is Some ==> next.strategy != Strategy::Atomic && after.completed
                < next.quota
            &&& next.strategy == Strategy::Mutex ==> (after.register is Some <==> next.holder
                == Some(w))
        } by {
            if w != worker {
                assert(next.workers[w] == state.workers[w]);
            }
        }
    }
}

/// Whatever lag the counter and the registers have behind the finished
/// increments, a turn keeps it.
pub proof fn lemma_step_keeps_lag(state: TrialState, worker: int, slack: nat)
    requires
        state.well_formed(),
        state.lags_by(slack),
    ensures
        state.step(worker).lags_by(slack),
{
    let next = state.step(worker);
    lemma_step_keeps_form(state, worker);
    if state.can_move(worker) {
        lemma_completed_total_update(state.workers, worker, next.workers[worker]);
        assert forall|w: int| 0 <= w < next.workers.len() implies match (
        #[trigger] next.workers[w]).register {
            Some(seen) => seen + slack <= next.completed(),
            None => true,
        } by {
            if w != worker {
                assert(next.workers[w] == state.workers[w]);
            }
        }
    }
}

/// A turn keeps a trial consistent. Under the mutex strategy this is where
/// the lock pays off: between the two halves of an increment no other
/// worker moves, so the value that is written back builds on the counter as
/// it stands.
pub proof fn lemma_step_keeps_consistent(state: TrialState, worker: int)
    requires
        state.consistent(),
    ensures
        state.step(worker).consistent(),
{
    let next = state.step(worker);
    lemma_step_keeps_form(state, worker);
    lemma_step_keeps_lag(state, worker, 0);
    if state.can_move(worker) && state.strategy.is_synchronized() {
        lemma_completed_total_update(state.workers, worker, next.workers[worker]);
        assert forall|w: int| 0 <= w < next.workers.len() implies match (
        #[trigger] next.workers[w]).register {
            Some(seen) => seen == next.value,
            None => true,
        } by {
            if w != worker {
                assert(next.workers[w] == state.workers[w]);
            }
        }
    }
}

/// No schedule leads a consistent trial out of consistency.
pub proof fn lemma_run_keeps_consistent(state: TrialState, schedule: Seq<int>)
    requires
        state.consistent(),
    ensures
        state.run(schedule).consistent(),
        state.run(schedule).workers.len() == state.workers.len(),
        state.run(schedule).quota == state.quota,
        state.run(schedule).strategy == state.strategy,
    decreases schedule.len(),
{
    if schedule.len() > 0 {
        lemma_run_keeps_consistent(state, schedule.drop_last());
        lemma_step_keeps_consistent(state.run(schedule.drop_last()), schedule.last());
    }
}

/// A worker that runs as far as it can leaves the other workers as they
/// were and keeps whatever the trial had: its form, its lag, its
/// consistency. If the lock was not in its way, it uses its quota up and
/// leaves the lock free.
pub proof fn lemma_run_worker(state: TrialState, worker: int, slack: nat)
    requires
        state.well_formed(),
        state.lags_by(slack),
    ensures
        state.run_worker(worker).well_formed(),
        state.run_worker(worker).lags_by(slack),
        state.consistent() ==> state.run_worker(worker).consistent(),
        !state.blocked(worker) ==> !state.run_worker(worker).has_work(worker)
            && state.run_worker(worker).holder is None,
        state.run_worker(worker).strategy == state.strategy,
        state.run_worker(worker).quota == state.quota,
        state.run_worker(worker).workers.len() == state.workers.len(),
        forall|other: int|
            0 <= other < state.workers.len() && other != worker ==> state.run_worker(
                worker,
            ).workers[other] == state.workers[other],
    decreases state.turns_left(worker),
{
    if state.can_move(worker) {
        let next = state.step(worker);
        lemma_step_keeps_form(state, worker);
        lemma_step_keeps_lag(state, worker, slack);
        if state.consistent() {
            lemma_step_keeps_consistent(state, worker);
        }
        lemma_run_worker(next, worker, slack);
        assert forall|other: int|
            0 <= other < state.workers.len() && other != worker implies state.run_worker(
            worker,
        ).workers[other] == state.workers[other] by {
            assert(next.run_worker(worker).workers[other] == next.workers[other]);
            assert(next.workers[other] == state.workers[other]);
        }
    } else if !state.blocked(worker) {
        if 0 <= worker < state.workers.len() {
            assert(state.workers[worker].completed == state.quota);
            assert(state.workers[worker].register is None);
        }
    }
}

/// With the lock free, settling the first `count` workers leaves none of
/// them with work to do, leaves the later workers as they were, leaves the
/// lock free, and keeps whatever the trial had.
pub proof fn lemma_settle_first(state: TrialState, count: nat, slack: nat)
    requires
        state.well_formed(),
        state.lags_by(slack),
        state.holder is None,
        count <= state.workers.len(),
    ensures
        state.settle_first(count).well_formed(),
        state.settle_first(count).lags_by(slack),
        state.consistent() ==> state.settle_first(count).consistent(),
        state.settle_first(count).holder is None,
        state.settle_first(count).strategy == state.strategy,
        state.settle_first(count).quota == state.quota,
        state.settle_first(count).workers.len() == state.workers.len(),
        forall|w: int| 0 <= w < count ==> !state.settle_first(count).has_work(w),
        forall|w: int|
            count <= w < state.workers.len() ==> state.settle_first(count).workers[w]
                == state.workers[w],
    decreases count,
{
    if count > 0 {
        let before = state.settle_first((count - 1) as nat);
        lemma_settle_first(state, (count - 1) as nat, slack);
        lemma_run_worker(before, count - 1, slack);
        let after = before.run_worker(count - 1);
        assert forall|w: int| 0 <= w < count implies !after.has_work(w) by {
            if w < count - 1 {
                assert(!before.has_work(w));
                assert(after.workers[w] == before.workers[w]);
            }
        }
    }
}

/// The turn that `unblock` gives makes the holder of the lock give it back,
/// and keeps whatever the trial had.
pub proof fn lemma_unblock(state: TrialState, slack: nat)
    requires
        state.well_formed(),
        state.lags_by(slack),
    ensures
        state.unblock().well_formed(),
        state.unblock().lags_by(slack),
        state.consistent() ==> state.unblock().consistent(),
        state.unblock().holder is None,
        state.unblock().strategy == state.strategy,
        state.unblock().quota == state.quota,
        state.unblock().workers.len() == state.workers.len(),
{
    match state.holder {
        Some(holder) => {
            assert(state.workers[holder].register is Some);
            lemma_step_keeps_form(state, holder);
            lemma_step_keeps_lag(state, holder, slack);
            if state.consistent() {
                lemma_step_keeps_consistent(state, holder);
            }
        },
        None => {},
    }
}

/// A settled trial is finished, and has kept whatever it had.
pub proof fn lemma_settle_finishes(state: TrialState, slack: nat)
    requires
        state.well_formed(),
        state.lags_by(slack),
    ensures
        state.settle().finished(),
        state.settle().well_formed(),
        state.settle().lags_by(slack),
        state.consistent() ==> state.settle().consistent(),
        state.settle().strategy == state.strategy,
        state.settle().target() == state.target(),
{
    lemma_unblock(state, slack);
    lemma_settle_first(state.unblock(), state.workers.len(), slack);
}

/// In a finished trial every quota has been used up, so the finished
/// increments add up to the target.
pub proof fn lemma_finished_reaches_target(state: TrialState)
    requires
        state.well_formed(),
        state.finished(),
    ensures
        state.completed() == state.target(),
{
    assert forall|w: int| 0 <= w < state.workers.len() implies (
    #[trigger] state.workers[w]).completed == state.quota by {
        assert(!state.has_work(w));
    }
    lemma_completed_total_bounds(state.workers, state.quota);
}

/// Under a synchronized strategy no schedule loses an increment: whenever all
/// workers are done, the counter holds exactly the number of increments that
/// were issued. The same holds once a trial that was cut short is settled.
pub proof fn lemma_synchronized_trials_are_exact(
    strategy: Strategy,
    workload: Workload,
    schedule: Seq<int>,
)
    requires
        strategy.is_synchronized(),
    ensures
        TrialState::initial(strategy, workload).run(schedule).finished() ==> TrialState::initial(
            strategy,
            workload,
        ).run(schedule).value == workload.total(),
        TrialState::initial(strategy, workload).run(schedule).settle().value == workload.total(),
{
    let start = TrialState::initial(strategy, workload);
    let end = start.run(schedule);
    lemma_initial_is_consistent(strategy, workload);
    lemma_run_keeps_consistent(start, schedule);
    if end.finished() {
        lemma_finished_reaches_target(end);
    }
    lemma_settle_finishes(end, 0);
    lemma_finished_reaches_target(end.settle());
}

/// Under no strategy and no schedule does the counter ever hold more than
/// the number of increments issued, neither on the way nor at the end.
pub proof fn lemma_no_trial_overcounts(strategy: Strategy, workload: Workload, schedule: Seq<int>)
    ensures
        TrialState::initial(strategy, workload).run(schedule).value <= workload.total(),
        TrialState::initial(strategy, workload).run(schedule).settle().value <= workload.total(),
{
    let start = TrialState::initial(strategy, workload);
    let end = start.run(schedule);
    lemma_initial_is_consistent(strategy, workload);
    lemma_run_keeps_consistent(start, schedule);
    lemma_completed_total_bounds(end.workers, end.quota);
    lemma_settle_finishes(end, 0);
    lemma_finished_reaches_target(end.settle());
}

/// Without synchronization an increment can get lost. Let two workers read
/// the counter before either writes it back: both then write the same
/// value, and however the rest of the trial goes, the counter ends short of
/// the number of increments issued.
pub proof fn lemma_interleaved_increments_lose_an_update(workload: Workload)
    requires
        workload.worker_count >= 2,
        workload.increments_per_worker >= 1,
    ensures
        TrialState::initial(Strategy::Unsynchronized, workload).run(seq![0, 1, 0, 1]).settle().value
            < workload.total(),
        exists|schedule: Seq<int>|
            (#[trigger] TrialState::initial(Strategy::Unsynchronized, workload).run(
                schedule,
            )).settle().value < workload.total(),
{
    let start = TrialState::initial(Strategy::Unsynchronized, workload);
    lemma_initial_is_consistent(Strategy::Unsynchronized, workload);
    let empty = Seq::<int>::empty();
    let read0 = start.step(0);
    let read1 = read0.step(1);
    let write0 = read1.step(0);
    let write1 = write0.step(1);
    assert(start.run(empty) == start);
    assert(seq![0int].drop_last() =~= empty);
    assert(start.run(seq![0int]) == read0);
    assert(seq![0int, 1].drop_last() =~= seq![0int]);
    assert(start.run(seq![0int, 1]) == read1);
    assert(seq![0int, 1, 0].drop_last() =~= seq![0int, 1]);
    assert(start.run(seq![0int, 1, 0]) == write0);
    assert(seq![0int, 1, 0, 1].drop_last() =~= seq![0int, 1, 0]);
    assert(start.run(seq![0int, 1, 0, 1]) == write1);

    lemma_step_keeps_consistent(start, 0);
    lemma_completed_total_update(start.workers, 0, read0.workers[0]);
    lemma_step_keeps_consistent(read0, 1);
    lemma_completed_total_update(read0.workers, 1, read1.workers[1]);
    lemma_step_keeps_consistent(read1, 0);
    lemma_completed_total_update(read1.workers, 0, write0.workers[0]);
    lemma_step_keeps_consistent(write0, 1);
    lemma_completed_total_update(write0.workers, 1, write1.workers[1]);
    assert(write1.value == 1);
    assert(write1.completed() == 2);
    assert(write1.lags_by(1)) by {
        assert forall|w: int| 0 <= w < write1.workers.len() implies (
        #[trigger] write1.workers[w]).register is None by {
            if w >= 2 {
                assert(write1.workers[w] == start.workers[w]);
            }
        }
    }
    lemma_settle_finishes(write1, 1);
    lemma_finished_reaches_target(write1.settle());
}

/// Whether the counter is exact and `worker` is the only one that may be
/// halfway through an increment, in which case it read the counter as it
/// stands now.
spec fn alone_at_work(state: TrialState, worker: int) -> bool {
    &&& state.value == state.completed()
    &&& forall|w: int|
        0 <= w < state.workers.len() && w != worker ==> (#[trigger] state.workers[w]).register is None
    &&& 0 <= worker < state.workers.len() ==> match state.workers[worker].register {
        Some(seen) => seen == state.value,
        None => true,
    }
}

proof fn lemma_run_worker_alone(state: TrialState, worker: int)
    requires
        state.well_formed(),
        alone_at_work(state, worker),
    ensures
        alone_at_work(state.run_worker(worker), worker),
    decreases state.turns_left(worker),
{
    if state.can_move(worker) {
        let next = state.step(worker);
        lemma_completed_total_update(state.workers, worker, next.workers[worker]);
        lemma_step_keeps_form(state, worker);
        assert forall|w: int| 0 <= w < next.workers.len() && w != worker implies (
        #[trigger] next.workers[w]).register is None by {
            assert(next.workers[w] == state.workers[w]);
        }
        lemma_run_worker_alone(next, worker);
    }
}

proof fn lemma_settle_first_undisturbed(state: TrialState, count: nat)
    requires
        state.well_formed(),
        state.quiescent(),
        state.holder is None,
        state.value == state.completed(),
        state.lags_by(0),
        count <= state.workers.len(),
    ensures
        state.settle_first(count).quiescent(),
        state.settle_first(count).value == state.settle_first(count).completed(),
    decreases count,
{
    if count > 0 {
        let before = state.settle_first((count - 1) as nat);
        lemma_settle_first_undisturbed(state, (count - 1) as nat);
        lemma_settle_first(state, (count - 1) as nat, 0);
        lemma_run_worker_alone(before, count - 1);
        lemma_run_worker(before, count - 1, 0);
        let after = before.run_worker(count - 1);
        assert forall|w: int| 0 <= w < after.workers.len() implies (
        #[trigger] after.workers[w]).register is None by {
            if w == count - 1 {
                assert(!after.has_work(w));
            }
        }
    }
}

/// Workers that take their turns one after the other lose nothing, with or
/// without synchronization: a trial that is settled from its start ends at
/// exactly the number of increments issued.
pub proof fn lemma_serial_trial_is_exact(strategy: Strategy, workload: Workload)
    ensures
        TrialState::initial(strategy, workload).settle().value == workload.total(),
        TrialState::initial(strategy, workload).run(Seq::empty()).settle().value
            == workload.total(),
{
    let start = TrialState::initial(strategy, workload);
    lemma_initial_is_consistent(strategy, workload);
    lemma_settle_first_undisturbed(start, start.workers.len());
    lemma_settle_finishes(start, 0);
    lemma_finished_reaches_target(start.settle());
}

/// What an unsynchronized trial observes depends on the schedule: the same
/// workload ends at one value when the workers run one after the other and at
/// another when two of them interleave.
pub proof fn lemma_unsynchronized_outcome_depends_on_schedule(workload: Workload)
    requires
        workload.worker_count >= 2,
        workload.increments_per_worker >= 1,
    ensures
        TrialState::initial(Strategy::Unsynchronized, workload).run(Seq::empty()).settle().value
            != TrialState::initial(Strategy::Unsynchronized, workload).run(
            seq![0, 1, 0, 1],
        ).settle().value,
{
    lemma_serial_trial_is_exact(Strategy::Unsynchronized, workload);
    lemma_interleaved_increments_lose_an_update(workload);
}

} // verus!
