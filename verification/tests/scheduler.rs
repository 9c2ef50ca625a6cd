use tx_benchmark::config::{BATCH_SIZE, CONCURRENCY, TOTAL_TRANSACTIONS};
use tx_benchmark::partition::count_batches;
use tx_benchmark::scheduler::{Action, Scheduler, PROGRESS_INTERVAL};

fn run_to_finish(total: u32, batch_size: usize, concurrency: usize) -> Vec<Action> {
    let mut scheduler = Scheduler::new(total, batch_size, concurrency);
    let mut actions = Vec::new();
    loop {
        let action = scheduler.step();
        actions.push(action);
        if action == Action::Finish {
            return actions;
        }
    }
}

#[test]
fn two_batches_one_at_a_time() {
    let actions = run_to_finish(10, 5, 1);
    assert_eq!(
        actions,
        vec![
            Action::Spawn { batch: 0 },
            Action::Barrier { progress: None },
            Action::Spawn { batch: 1 },
            Action::Barrier { progress: None },
            Action::Finish,
        ]
    );
}

#[test]
fn nothing_to_do_finishes_at_once() {
    for concurrency in 0usize..4 {
        let mut scheduler = Scheduler::new(0, 5, concurrency);
        assert_eq!(scheduler.batch_count(), 0);
        assert_eq!(scheduler.step(), Action::Finish);
        assert_eq!(scheduler.processed(), 0);
        assert_eq!(scheduler.dispatched(), 0);
    }
}

#[test]
fn finish_is_repeated() {
    let mut scheduler = Scheduler::new(3, 5, 2);
    assert_eq!(scheduler.step(), Action::Spawn { batch: 0 });
    assert_eq!(scheduler.step(), Action::Barrier { progress: None });
    assert_eq!(scheduler.step(), Action::Finish);
    assert_eq!(scheduler.step(), Action::Finish);
    assert_eq!(scheduler.dispatched(), 1);
    assert_eq!(scheduler.completed(), 1);
    assert_eq!(scheduler.in_flight(), 0);
}

#[test]
fn a_last_wave_that_is_not_full_leaves_the_counter() {
    let mut scheduler = Scheduler::new(25, 5, 2);
    assert_eq!(scheduler.batch_count(), 5);
    assert_eq!(scheduler.concurrency(), 2);
    assert_eq!(scheduler.step(), Action::Spawn { batch: 0 });
    assert_eq!(scheduler.step(), Action::Spawn { batch: 1 });
    assert_eq!(scheduler.in_flight(), 2);
    assert_eq!(scheduler.step(), Action::Barrier { progress: None });
    assert_eq!(scheduler.processed(), 10);
    assert_eq!(scheduler.in_flight(), 0);
    assert_eq!(scheduler.step(), Action::Spawn { batch: 2 });
    assert_eq!(scheduler.step(), Action::Spawn { batch: 3 });
    assert_eq!(scheduler.step(), Action::Barrier { progress: None });
    assert_eq!(scheduler.processed(), 20);
    assert_eq!(scheduler.step(), Action::Spawn { batch: 4 });
    assert_eq!(scheduler.in_flight(), 1);
    assert_eq!(scheduler.step(), Action::Barrier { progress: None });
    assert_eq!(scheduler.processed(), 20);
    assert_eq!(scheduler.completed(), 5);
    assert_eq!(scheduler.step(), Action::Finish);
}

#[test]
fn the_counter_counts_full_waves_not_units() {
    let mut scheduler = Scheduler::new(7, 5, 2);
    assert_eq!(scheduler.step(), Action::Spawn { batch: 0 });
    assert_eq!(scheduler.step(), Action::Spawn { batch: 1 });
    assert_eq!(scheduler.step(), Action::Barrier { progress: None });
    assert_eq!(scheduler.processed(), 10);
    assert_eq!(scheduler.step(), Action::Finish);
}

#[test]
fn progress_is_reported_at_multiples_of_the_interval() {
    assert_eq!(PROGRESS_INTERVAL, 10_000);
    let actions = run_to_finish(20_000, 2_500, 2);
    assert_eq!(
        actions,
        vec![
            Action::Spawn { batch: 0 },
            Action::Spawn { batch: 1 },
            Action::Barrier { progress: None },
            Action::Spawn { batch: 2 },
            Action::Spawn { batch: 3 },
            Action::Barrier { progress: Some(10_000) },
            Action::Spawn { batch: 4 },
            Action::Spawn { batch: 5 },
            Action::Barrier { progress: None },
            Action::Spawn { batch: 6 },
            Action::Spawn { batch: 7 },
            Action::Barrier { progress: Some(20_000) },
            Action::Finish,
        ]
    );
}

#[test]
fn default_settings_run_two_waves_of_fifty() {
    let actions = run_to_finish(TOTAL_TRANSACTIONS, BATCH_SIZE, CONCURRENCY);
    let mut expected = Vec::new();
    for batch in 0..50 {
        expected.push(Action::Spawn { batch });
    }
    expected.push(Action::Barrier { progress: Some(50_000) });
    for batch in 50..100 {
        expected.push(Action::Spawn { batch });
    }
    expected.push(Action::Barrier { progress: Some(100_000) });
    expected.push(Action::Finish);
    assert_eq!(actions, expected);
}

#[test]
fn concurrency_above_the_batch_count_gives_one_wave() {
    let actions = run_to_finish(12, 4, 10);
    assert_eq!(
        actions,
        vec![
            Action::Spawn { batch: 0 },
            Action::Spawn { batch: 1 },
            Action::Spawn { batch: 2 },
            Action::Barrier { progress: None },
            Action::Finish,
        ]
    );
}

#[test]
fn zero_concurrency_runs_one_batch_per_wave() {
    let mut scheduler = Scheduler::new(6, 3, 0);
    assert_eq!(scheduler.step(), Action::Spawn { batch: 0 });
    assert_eq!(scheduler.in_flight(), 1);
    assert_eq!(scheduler.step(), Action::Barrier { progress: Some(0) });
    assert_eq!(scheduler.step(), Action::Spawn { batch: 1 });
    assert_eq!(scheduler.step(), Action::Barrier { progress: Some(0) });
    assert_eq!(scheduler.processed(), 0);
    assert_eq!(scheduler.step(), Action::Finish);
}

#[test]
fn in_flight_never_exceeds_the_concurrency() {
    for total in 0u32..40 {
        for batch_size in 1usize..7 {
            for concurrency in 1usize..7 {
                let mut scheduler = Scheduler::new(total, batch_size, concurrency);
                loop {
                    assert!(scheduler.in_flight() <= concurrency);
                    if scheduler.step() == Action::Finish {
                        break;
                    }
                }
                assert!(scheduler.in_flight() <= concurrency);
            }
        }
    }
}

#[test]
fn a_wave_starts_after_the_one_before_has_been_waited_for() {
    for total in 0u32..40 {
        for batch_size in 1usize..7 {
            for concurrency in 1usize..7 {
                let mut scheduler = Scheduler::new(total, batch_size, concurrency);
                loop {
                    let completed = scheduler.completed();
                    match scheduler.step() {
                        Action::Spawn { batch } => {
                            let wave = batch / concurrency;
                            assert_eq!(completed, wave * concurrency);
                        }
                        Action::Barrier { .. } => {
                            assert_eq!(scheduler.completed(), scheduler.dispatched());
                        }
                        Action::Finish => break,
                    }
                }
            }
        }
    }
}

#[test]
fn every_batch_is_started_once_in_order() {
    for total in 0u32..40 {
        for batch_size in 1usize..7 {
            for concurrency in 0usize..7 {
                let actions = run_to_finish(total, batch_size, concurrency);
                let mut next = 0usize;
                for action in &actions {
                    if let Action::Spawn { batch } = action {
                        assert_eq!(*batch, next);
                        next += 1;
                    }
                }
                assert_eq!(next, count_batches(total, batch_size));
                assert_eq!(actions.last(), Some(&Action::Finish));
            }
        }
    }
}

#[test]
fn the_counter_is_the_wave_size_times_the_full_waves() {
    for total in 0u32..40 {
        for batch_size in 1usize..7 {
            for concurrency in 0usize..7 {
                let mut scheduler = Scheduler::new(total, batch_size, concurrency);
                while scheduler.step() != Action::Finish {}
                let width = if concurrency == 0 { 1 } else { concurrency };
                let full_waves = count_batches(total, batch_size) / width;
                assert_eq!(
                    scheduler.processed(),
                    (full_waves * batch_size * concurrency) as u64
                );
            }
        }
    }
}

#[test]
fn a_huge_batch_size_does_not_overflow_the_counter() {
    let mut scheduler = Scheduler::new(1, usize::MAX, 1);
    assert_eq!(scheduler.step(), Action::Spawn { batch: 0 });
    match scheduler.step() {
        Action::Barrier { .. } => {}
        other => panic!("unexpected action {:?}", other),
    }
    assert_eq!(scheduler.processed(), usize::MAX as u64);
    assert_eq!(scheduler.step(), Action::Finish);
}
