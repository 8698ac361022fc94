use ironpath::telemetry::{average_duration, duration_at_rank, Duration};

fn nanos(values: &[u64]) -> Vec<Duration> {
    values.iter().map(|v| Duration::from_nanos(*v)).collect()
}

fn percentile_rank(len: usize, percentile: f64) -> usize {
    ((len as f64 - 1.0) * percentile).ceil() as usize
}

#[test]
fn average_of_no_samples_is_zero() {
    assert_eq!(average_duration(&[]).as_nanos(), 0);
}

#[test]
fn average_rounds_down_to_whole_nanoseconds() {
    let samples = nanos(&[100, 200, 301]);
    assert_eq!(average_duration(&samples).as_nanos(), 200);
    let samples = nanos(&[1, 2]);
    assert_eq!(average_duration(&samples).as_nanos(), 1);
}

#[test]
fn average_of_equal_samples_is_that_sample() {
    let samples = vec![Duration::new(2, 500); 7];
    assert_eq!(average_duration(&samples).as_nanos(), 2_000_000_500);
}

#[test]
fn average_wraps_past_u64_nanoseconds() {
    let samples = vec![Duration::new(20_000_000_000, 0)];
    let expected = (20_000_000_000u128 * 1_000_000_000) % (1u128 << 64);
    assert_eq!(average_duration(&samples).as_nanos(), expected);
}

#[test]
fn rank_of_no_samples_is_zero() {
    assert_eq!(duration_at_rank(&[], 3).as_nanos(), 0);
}

#[test]
fn rank_selects_from_sorted_samples() {
    let samples = nanos(&[50, 10, 40, 20, 30]);
    let sorted = [10, 20, 30, 40, 50];
    for (rank, expected) in sorted.iter().enumerate() {
        assert_eq!(duration_at_rank(&samples, rank).as_nanos(), *expected as u128);
    }
}

#[test]
fn rank_past_the_end_gives_the_largest_sample() {
    let samples = nanos(&[7, 3, 9]);
    assert_eq!(duration_at_rank(&samples, 3).as_nanos(), 9);
    assert_eq!(duration_at_rank(&samples, usize::MAX).as_nanos(), 9);
}

#[test]
fn rank_counts_repeated_samples() {
    let samples = nanos(&[5, 1, 5, 5, 2]);
    let expected = [1, 2, 5, 5, 5];
    for (rank, e) in expected.iter().enumerate() {
        assert_eq!(duration_at_rank(&samples, rank).as_nanos(), *e as u128);
    }
}

#[test]
fn p95_and_p99_of_a_hundred_samples() {
    let values: Vec<u64> = (1..=100).rev().map(|v| v * 1000).collect();
    let samples = nanos(&values);
    let p95 = duration_at_rank(&samples, percentile_rank(samples.len(), 0.95));
    let p99 = duration_at_rank(&samples, percentile_rank(samples.len(), 0.99));
    assert_eq!(p95.as_nanos(), 96_000);
    assert_eq!(p99.as_nanos(), 100_000);
    assert!(p95.as_nanos() <= p99.as_nanos());
}

#[test]
fn duration_splits_into_seconds_and_nanoseconds() {
    let d = Duration::new(3, 250_000_000);
    assert_eq!(d.as_nanos(), 3_250_000_000);
    assert_eq!(d.as_secs(), 3);
    assert_eq!(d.subsec_nanos(), 250_000_000);
    let z = Duration::zero();
    assert_eq!(z.as_secs(), 0);
    assert_eq!(z.subsec_nanos(), 0);
    let big = Duration::new(u64::MAX, 999_999_999);
    assert_eq!(big.as_secs(), u64::MAX);
    assert_eq!(big.subsec_nanos(), 999_999_999);
}

#[test]
fn ranks_do_not_depend_on_sample_order() {
    let a = nanos(&[9, 4, 4, 7, 1, 12]);
    let b = nanos(&[1, 12, 4, 9, 7, 4]);
    for rank in 0..8 {
        assert_eq!(duration_at_rank(&a, rank).as_nanos(), duration_at_rank(&b, rank).as_nanos());
    }
}
