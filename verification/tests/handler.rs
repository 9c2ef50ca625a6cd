use tx_benchmark::handler::{
    process_batch, process_unit, UnitRun, FAILURE_ODDS, FAILURE_ODDS_OUT_OF, MAX_DELAY_MICROS,
    MIN_DELAY_MICROS,
};

#[test]
fn delay_bounds_and_failure_odds() {
    assert_eq!(MIN_DELAY_MICROS, 30);
    assert_eq!(MAX_DELAY_MICROS, 120);
    assert_eq!(FAILURE_ODDS, 1);
    assert_eq!(FAILURE_ODDS_OUT_OF, 1_000);
}

#[test]
fn a_failed_unit_has_a_notice() {
    let run = UnitRun { unit: 17, delay_micros: 30, failed: true };
    assert_eq!(run.notice(), Some(String::from("Transaction 17 failed to process.")));
}

#[test]
fn a_unit_that_did_not_fail_has_no_notice() {
    let run = UnitRun { unit: 17, delay_micros: 120, failed: false };
    assert_eq!(run.notice(), None);
}

#[test]
fn a_unit_keeps_its_identity() {
    let mut rng = rand::thread_rng();
    for unit in [0u32, 1, 999, u32::MAX] {
        let run = process_unit(&mut rng, unit);
        assert_eq!(run.unit, unit);
        assert!(run.delay_micros >= 30 && run.delay_micros <= 120);
    }
}

#[test]
fn a_batch_is_processed_in_order() {
    let batch: Vec<u32> = vec![5, 6, 7, 8, 9];
    let runs = process_batch(&batch);
    assert_eq!(runs.len(), 5);
    for (run, unit) in runs.iter().zip(batch.iter()) {
        assert_eq!(run.unit, *unit);
    }
}

#[test]
fn an_empty_batch_has_no_runs() {
    assert_eq!(process_batch(&Vec::new()), Vec::<UnitRun>::new());
}

#[test]
fn delays_lie_within_the_bounds() {
    let batch: Vec<u32> = (0..100_000).collect();
    for run in process_batch(&batch) {
        assert!(run.delay_micros >= 30, "delay {} below 30", run.delay_micros);
        assert!(run.delay_micros <= 120, "delay {} above 120", run.delay_micros);
    }
}

#[test]
fn delays_take_every_value_of_the_range() {
    let batch: Vec<u32> = (0..100_000).collect();
    let mut seen = [false; 121];
    for run in process_batch(&batch) {
        seen[run.delay_micros as usize] = true;
    }
    for delay in 30..=120 {
        assert!(seen[delay], "delay {} never drawn", delay);
    }
}

#[test]
fn failures_come_at_about_one_in_a_thousand() {
    let batch: Vec<u32> = (0..1_000_000).collect();
    let failures = process_batch(&batch).iter().filter(|run| run.failed).count();
    assert!(failures >= 800, "only {} failures", failures);
    assert!(failures <= 1_200, "as many as {} failures", failures);
}
