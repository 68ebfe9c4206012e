use primer::counter::SharedCounter;
use primer::strategy::Strategy;
use primer::trial::{run, Trial};
use primer::workload::{ConfigError, TrialResult, Workload};

fn round_robin(workers: usize, turns_each: usize) -> Vec<usize> {
    let mut schedule = Vec::with_capacity(workers * turns_each);
    for _ in 0..turns_each {
        for worker in 0..workers {
            schedule.push(worker);
        }
    }
    schedule
}

fn shuffled(workers: usize, turns: usize, seed: u64) -> Vec<usize> {
    let mut state = seed;
    let mut schedule = Vec::with_capacity(turns);
    for _ in 0..turns {
        state = state
            .wrapping_mul(6364136223846793005)
            .wrapping_add(1442695040888963407);
        schedule.push(((state >> 33) as usize) % workers);
    }
    schedule
}

#[test]
fn fresh_counter_loads_zero() {
    assert_eq!(SharedCounter::new(Strategy::Atomic).load(), 0);
    assert_eq!(SharedCounter::new(Strategy::Mutex).load(), 0);
    assert_eq!(SharedCounter::new(Strategy::Unsynchronized).load(), 0);
}

#[test]
fn increment_adds_exactly_one() {
    let mut counter = SharedCounter::new(Strategy::Mutex);
    counter.increment();
    assert_eq!(counter.load(), 1);
    counter.increment();
    counter.increment();
    assert_eq!(counter.load(), 3);
    assert_eq!(counter.strategy(), Strategy::Mutex);
}

#[test]
fn two_unsynchronized_increments_can_count_as_one() {
    let mut counter = SharedCounter::new(Strategy::Unsynchronized);
    let first = counter.begin_increment(0).unwrap();
    let second = counter.begin_increment(1).unwrap();
    assert_eq!((first, second), (0, 0));
    assert_eq!(counter.holder(), None);
    counter.finish_increment(0, first);
    counter.finish_increment(1, second);
    assert_eq!(counter.load(), 1);
}

#[test]
fn the_lock_keeps_a_second_worker_out() {
    let mut counter = SharedCounter::new(Strategy::Mutex);
    assert_eq!(counter.holder(), None);
    let first = counter.begin_increment(0).unwrap();
    assert_eq!(first, 0);
    assert_eq!(counter.holder(), Some(0));
    assert_eq!(counter.begin_increment(1), None);
    assert_eq!(counter.holder(), Some(0));
    assert_eq!(counter.load(), 0);
    counter.finish_increment(0, first);
    assert_eq!(counter.holder(), None);
    assert_eq!(counter.load(), 1);
    let second = counter.begin_increment(1).unwrap();
    assert_eq!(second, 1);
    assert_eq!(counter.holder(), Some(1));
    counter.finish_increment(1, second);
    assert_eq!(counter.load(), 2);
    assert_eq!(counter.holder(), None);
}

#[test]
fn a_whole_increment_works_under_every_strategy() {
    for strategy in [Strategy::Atomic, Strategy::Mutex, Strategy::Unsynchronized] {
        let mut counter = SharedCounter::new(strategy);
        for _ in 0..5 {
            counter.increment();
        }
        assert_eq!(counter.load(), 5);
        assert_eq!(counter.strategy(), strategy);
        assert_eq!(counter.holder(), None);
    }
}

#[test]
fn run_without_workers_is_a_configuration_error() {
    for strategy in [Strategy::Atomic, Strategy::Mutex, Strategy::Unsynchronized] {
        let workload = Workload::new(0, 1_000);
        assert_eq!(run(strategy, workload, &[]), Err(ConfigError::NoWorkers));
        assert_eq!(run(strategy, workload, &[0, 1, 0]), Err(ConfigError::NoWorkers));
        assert!(Trial::start(strategy, workload).is_err());
    }
    assert_eq!(Workload::new(0, 0).expected_total(), Err(ConfigError::NoWorkers));
}

#[test]
fn run_turns_down_a_total_beyond_64_bits() {
    let workload = Workload::new(usize::MAX, usize::MAX);
    assert_eq!(workload.expected_total(), Err(ConfigError::TotalOverflow));
    assert_eq!(run(Strategy::Atomic, workload, &[]), Err(ConfigError::TotalOverflow));
    let none = Workload::new(0, usize::MAX);
    assert_eq!(none.expected_total(), Err(ConfigError::NoWorkers));
}

#[test]
fn expected_total_is_the_product() {
    assert_eq!(Workload::new(2, 1_000_000).expected_total(), Ok(2_000_000));
    assert_eq!(Workload::new(4, 250_000).expected_total(), Ok(1_000_000));
    assert_eq!(Workload::new(7, 0).expected_total(), Ok(0));
    assert_eq!(Workload::new(1, 1).expected_total(), Ok(1));
}

#[test]
fn atomic_two_workers_one_million_each() {
    let workload = Workload::new(2, 1_000_000);
    let schedule = round_robin(2, 1_000_000);
    let report = run(Strategy::Atomic, workload, &schedule).unwrap();
    assert_eq!(report.expected_total, 2_000_000);
    assert_eq!(report.observed_total, 2_000_000);
}

#[test]
fn mutex_four_workers_quarter_million_each() {
    let workload = Workload::new(4, 250_000);
    let schedule = shuffled(4, 1_500_000, 42);
    let report = run(Strategy::Mutex, workload, &schedule).unwrap();
    assert_eq!(report.expected_total, 1_000_000);
    assert_eq!(report.observed_total, 1_000_000);
}

#[test]
fn unsynchronized_two_workers_one_million_each() {
    let workload = Workload::new(2, 1_000_000);
    let mut seen = Vec::new();
    for seed in 1..=4u64 {
        let schedule = shuffled(2, 4_000_000, seed);
        let report = run(Strategy::Unsynchronized, workload, &schedule).unwrap();
        assert_eq!(report.expected_total, 2_000_000);
        assert!(report.observed_total <= 2_000_000);
        seen.push(report.observed_total);
    }
    assert!(seen.iter().any(|&observed| observed != seen[0]));
}

#[test]
fn synchronized_trials_are_exact_under_every_schedule() {
    for strategy in [Strategy::Atomic, Strategy::Mutex] {
        for workers in 1..=6usize {
            for each in [0usize, 1, 2, 17, 100] {
                for seed in 0..5u64 {
                    let workload = Workload::new(workers, each);
                    let schedule = shuffled(workers + 1, workers * each + 3, seed);
                    let report = run(strategy, workload, &schedule).unwrap();
                    assert_eq!(report.expected_total, (workers * each) as u64);
                    assert_eq!(report.observed_total, report.expected_total);
                    assert!(report.is_exact());
                    assert_eq!(report.lost_updates(), 0);
                }
            }
        }
    }
}

#[test]
fn unsynchronized_trials_never_overcount_and_sometimes_undercount() {
    let mut undercounted = false;
    for workers in 2..=5usize {
        for seed in 0..20u64 {
            let workload = Workload::new(workers, 200);
            let schedule = shuffled(workers, workers * 400, seed);
            let report = run(Strategy::Unsynchronized, workload, &schedule).unwrap();
            assert_eq!(report.expected_total, (workers * 200) as u64);
            assert!(report.observed_total <= report.expected_total);
            if report.observed_total < report.expected_total {
                undercounted = true;
                assert!(!report.is_exact());
                assert_eq!(
                    report.lost_updates(),
                    report.expected_total - report.observed_total
                );
            }
        }
    }
    assert!(undercounted);
}

#[test]
fn interleaved_reads_lose_exactly_one_update() {
    let report = run(Strategy::Unsynchronized, Workload::new(2, 1), &[0, 1, 0, 1]).unwrap();
    assert_eq!(report, TrialResult { expected_total: 2, observed_total: 1 });
    let report = run(Strategy::Unsynchronized, Workload::new(3, 5), &[0, 1, 0, 1]).unwrap();
    assert_eq!(report, TrialResult { expected_total: 15, observed_total: 14 });
    assert_eq!(report.lost_updates(), 1);
}

#[test]
fn the_same_schedule_is_harmless_under_synchronization() {
    for strategy in [Strategy::Atomic, Strategy::Mutex] {
        let report = run(strategy, Workload::new(2, 1), &[0, 1, 0, 1]).unwrap();
        assert_eq!(report, TrialResult { expected_total: 2, observed_total: 2 });
    }
}

#[test]
fn an_empty_schedule_runs_the_workers_one_after_the_other() {
    for strategy in [Strategy::Atomic, Strategy::Mutex, Strategy::Unsynchronized] {
        let report = run(strategy, Workload::new(3, 1_000), &[]).unwrap();
        assert_eq!(report, TrialResult { expected_total: 3_000, observed_total: 3_000 });
    }
}

#[test]
fn a_late_write_wipes_out_what_came_between() {
    // Worker 0 reads zero, worker 1 runs to its end, then worker 0 writes one.
    let mut schedule = vec![0];
    schedule.extend(std::iter::repeat(1).take(20));
    schedule.push(0);
    let report = run(Strategy::Unsynchronized, Workload::new(2, 10), &schedule).unwrap();
    assert_eq!(report.expected_total, 20);
    assert_eq!(report.observed_total, 10);
    assert_eq!(report.lost_updates(), 10);
}

#[test]
fn turns_for_nobody_are_passed_over() {
    let report = run(Strategy::Atomic, Workload::new(1, 2), &[5, 9, 0, 0, 0, 0, 7]).unwrap();
    assert_eq!(report, TrialResult { expected_total: 2, observed_total: 2 });
}

#[test]
fn stepping_a_trial_by_hand() {
    let mut trial = Trial::start(Strategy::Unsynchronized, Workload::new(2, 1)).unwrap();
    assert!(!trial.is_finished());
    assert_eq!(trial.observed(), 0);
    assert!(trial.step(0));
    assert_eq!(trial.observed(), 0);
    assert!(trial.step(1));
    assert!(trial.step(0));
    assert_eq!(trial.observed(), 1);
    assert!(!trial.is_finished());
    assert!(trial.step(1));
    assert_eq!(trial.observed(), 1);
    assert!(trial.is_finished());
    assert!(!trial.step(0));
    assert!(!trial.step(1));
    assert!(!trial.step(2));
    assert_eq!(trial.finish(), TrialResult { expected_total: 2, observed_total: 1 });
}

#[test]
fn a_worker_waits_for_the_lock() {
    let mut trial = Trial::start(Strategy::Mutex, Workload::new(2, 1)).unwrap();
    assert!(trial.step(0));
    assert_eq!(trial.observed(), 0);
    assert!(!trial.step(1));
    assert!(!trial.step(1));
    assert!(trial.step(0));
    assert_eq!(trial.observed(), 1);
    assert!(!trial.step(0));
    assert!(trial.step(1));
    assert!(!trial.is_finished());
    assert_eq!(trial.observed(), 1);
    assert!(trial.step(1));
    assert_eq!(trial.observed(), 2);
    assert!(trial.is_finished());
    assert_eq!(trial.finish(), TrialResult { expected_total: 2, observed_total: 2 });
}

#[test]
fn settling_lets_the_holder_of_the_lock_go_first() {
    let mut trial = Trial::start(Strategy::Mutex, Workload::new(3, 2)).unwrap();
    assert!(trial.step(2));
    assert!(!trial.step(0));
    trial.settle();
    assert!(trial.is_finished());
    assert_eq!(trial.observed(), 6);
}

#[test]
fn a_worker_that_is_kept_out_runs_nowhere() {
    let mut trial = Trial::start(Strategy::Mutex, Workload::new(2, 3)).unwrap();
    assert!(trial.step(1));
    trial.run_worker(0);
    assert_eq!(trial.observed(), 0);
    trial.run_worker(1);
    assert_eq!(trial.observed(), 3);
    trial.run_worker(0);
    assert_eq!(trial.observed(), 6);
    assert!(trial.is_finished());
}

#[test]
fn an_atomic_turn_is_a_whole_increment() {
    let mut trial = Trial::start(Strategy::Atomic, Workload::new(2, 2)).unwrap();
    assert!(trial.step(1));
    assert_eq!(trial.observed(), 1);
    assert!(trial.step(0));
    assert!(trial.step(1));
    assert_eq!(trial.observed(), 3);
    assert!(!trial.step(1));
    assert_eq!(trial.observed(), 3);
    trial.run_worker(0);
    assert!(trial.is_finished());
    assert_eq!(trial.observed(), 4);
}

#[test]
fn settling_finishes_a_trial() {
    let mut trial = Trial::start(Strategy::Atomic, Workload::new(3, 4)).unwrap();
    trial.step(2);
    trial.settle();
    assert!(trial.is_finished());
    assert_eq!(trial.observed(), 12);
}

#[test]
fn strategies_go_by_their_names() {
    assert_eq!(Strategy::from_name("atomic"), Some(Strategy::Atomic));
    assert_eq!(Strategy::from_name("mutex"), Some(Strategy::Mutex));
    assert_eq!(Strategy::from_name("unsynchronized"), Some(Strategy::Unsynchronized));
    assert_eq!(Strategy::from_name("Atomic"), None);
    assert_eq!(Strategy::from_name(""), None);
    assert_eq!(Strategy::from_name("spinlock"), None);
    for strategy in [Strategy::Atomic, Strategy::Mutex, Strategy::Unsynchronized] {
        assert_eq!(Strategy::from_name(strategy.name()), Some(strategy));
    }
    assert!(Strategy::Atomic.guarantees_exact_count());
    assert!(Strategy::Mutex.guarantees_exact_count());
    assert!(!Strategy::Unsynchronized.guarantees_exact_count());
}

#[test]
fn reports_tell_exact_from_short() {
    let exact = TrialResult { expected_total: 10, observed_total: 10 };
    assert!(exact.is_exact());
    assert_eq!(exact.lost_updates(), 0);
    let short = TrialResult { expected_total: 10, observed_total: 7 };
    assert!(!short.is_exact());
    assert_eq!(short.lost_updates(), 3);
    let over = TrialResult { expected_total: 10, observed_total: 11 };
    assert!(!over.is_exact());
    assert_eq!(over.lost_updates(), 0);
}

#[test]
fn configuration_errors_describe_themselves() {
    assert_eq!(ConfigError::NoWorkers.describe(), "a trial needs at least one worker");
    assert_eq!(
        ConfigError::TotalOverflow.describe(),
        "the workload issues more increments than a 64-bit counter can hold"
    );
}
