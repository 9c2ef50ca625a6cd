use tx_benchmark::report::{
    failure_notice, progress_line, push_decimal, push_hundredths, summary_line,
    summary_line_with, throughput,
};

#[test]
fn progress_line_reads_as_expected() {
    assert_eq!(progress_line(50_000), "Progress: 50000 transactions processed...");
    assert_eq!(progress_line(0), "Progress: 0 transactions processed...");
    assert_eq!(
        progress_line(u64::MAX),
        "Progress: 18446744073709551615 transactions processed..."
    );
}

#[test]
fn failure_notice_reads_as_expected() {
    assert_eq!(failure_notice(42), "Transaction 42 failed to process.");
    assert_eq!(failure_notice(0), "Transaction 0 failed to process.");
    assert_eq!(failure_notice(u32::MAX), "Transaction 4294967295 failed to process.");
}

#[test]
fn decimal_has_no_leading_zeros() {
    for n in [0u128, 7, 9, 10, 11, 99, 100, 101, 1_000, 9_999, 10_000, 123_456_789, u128::MAX] {
        let mut text = String::from("x");
        push_decimal(&mut text, n);
        assert_eq!(text, format!("x{}", n));
    }
}

#[test]
fn hundredths_have_two_decimals() {
    let cases: [(u128, &str); 7] = [
        (0, "0.00"),
        (5, "0.05"),
        (50, "0.50"),
        (99, "0.99"),
        (100, "1.00"),
        (1_205, "12.05"),
        (5_000_000, "50000.00"),
    ];
    for (hundredths, expected) in cases {
        let mut text = String::new();
        push_hundredths(&mut text, hundredths);
        assert_eq!(text, expected);
    }
}

#[test]
fn throughput_is_units_per_second_in_hundredths() {
    assert_eq!(throughput(100_000, 2_000_000_000), Some(5_000_000));
    assert_eq!(throughput(10, 1_000_000_000), Some(1_000));
    assert_eq!(throughput(10, 1), Some(1_000_000_000_000));
    assert_eq!(throughput(0, 1), Some(0));
    assert_eq!(throughput(0, u64::MAX), Some(0));
    assert_eq!(throughput(u32::MAX, 1), Some(429_496_729_500_000_000_000));
}

#[test]
fn throughput_rounds_to_the_nearest_hundredth() {
    assert_eq!(throughput(10, 1_500_000_000), Some(667));
    assert_eq!(throughput(1, 3_000_000_000), Some(33));
    assert_eq!(throughput(2, 3_000_000_000), Some(67));
    assert_eq!(throughput(1, 200_000_000_000), Some(1));
    assert_eq!(throughput(1, 200_000_000_001), Some(0));
    assert_eq!(throughput(1, 199_999_999_999), Some(1));
    assert_eq!(throughput(1, u64::MAX), Some(0));
}

#[test]
fn no_time_elapsed_gives_no_throughput() {
    assert_eq!(throughput(0, 0), None);
    assert_eq!(throughput(10, 0), None);
    assert_eq!(throughput(u32::MAX, 0), None);
}

#[test]
fn summary_with_given_elapsed_text() {
    assert_eq!(
        summary_line_with(10, "1.50s", 1_500_000_000),
        "Processed 10 transactions in 1.50s -> TPS: 6.67"
    );
    assert_eq!(
        summary_line_with(100_000, "2.00s", 2_000_000_000),
        "Processed 100000 transactions in 2.00s -> TPS: 50000.00"
    );
    assert_eq!(
        summary_line_with(3, "", 0),
        "Processed 3 transactions in  -> TPS: n/a"
    );
}

#[test]
fn summary_formats_the_elapsed_time() {
    assert_eq!(
        summary_line(10, 1_500_000_000),
        "Processed 10 transactions in 1.50s -> TPS: 6.67"
    );
    assert_eq!(
        summary_line(100_000, 12_345_678),
        "Processed 100000 transactions in 12.35ms -> TPS: 8100000.66"
    );
    assert_eq!(
        summary_line(5, 2_500),
        "Processed 5 transactions in 2.50µs -> TPS: 2000000.00"
    );
}

#[test]
fn summary_of_an_empty_run() {
    assert_eq!(
        summary_line(0, 1_000),
        "Processed 0 transactions in 1.00µs -> TPS: 0.00"
    );
    assert_eq!(
        summary_line(0, 0),
        "Processed 0 transactions in 0.00ns -> TPS: n/a"
    );
}
