use hyperlink_protocol::metrics::{
    nearest_rank, percentile, summarize_clock_rounds, summarize_rtts, value_at_rank,
    LatencyMeasurement,
};

#[test]
fn rtt_summary_basic() {
    let s = summarize_rtts(&[300, 100, 500, 200, 400]);
    assert_eq!(s.sorted, vec![100, 200, 300, 400, 500]);
    assert_eq!(s.count, 5);
    assert_eq!(s.min_us, 100);
    assert_eq!(s.max_us, 500);
    assert_eq!(s.sum_us, 1500);
}

#[test]
fn rtt_summary_single_value() {
    let s = summarize_rtts(&[42]);
    assert_eq!(s.count, 1);
    assert_eq!(s.min_us, 42);
    assert_eq!(s.max_us, 42);
    assert_eq!(value_at_rank(&s.sorted, 1), 42);
    assert_eq!(value_at_rank(&s.sorted, 0), 42);
    assert_eq!(value_at_rank(&s.sorted, 5), 42);
}

#[test]
fn nearest_rank_lookup() {
    let sorted = [10, 20, 30, 40, 50];
    assert_eq!(value_at_rank(&sorted, 0), 10);
    assert_eq!(value_at_rank(&sorted, 1), 10);
    assert_eq!(value_at_rank(&sorted, 3), 30);
    assert_eq!(value_at_rank(&sorted, 5), 50);
    assert_eq!(value_at_rank(&sorted, 99), 50);
}

#[test]
fn rtt_summary_with_duplicates_and_negatives() {
    let s = summarize_rtts(&[5, -3, 5, 0]);
    assert_eq!(s.sorted, vec![-3, 0, 5, 5]);
    assert_eq!(s.sum_us, 7);
}

#[test]
fn clock_rounds_pick_first_minimum() {
    let offsets = [10, 20, 30, 40];
    let rtts = [500, 200, 300, 200];
    let s = summarize_clock_rounds(&offsets, &rtts);
    assert_eq!(s.best_offset_us, 20);
    assert_eq!(s.min_rtt_us, 200);
    assert_eq!(s.mean_rtt_us, 300);
}

#[test]
fn clock_rounds_mean_truncates() {
    let s = summarize_clock_rounds(&[1, 2, 3], &[-1, -1, -2]);
    assert_eq!(s.mean_rtt_us, -1);
    assert_eq!(s.best_offset_us, 3);
}

#[test]
fn latency_measurement_halves_rtt() {
    let m = LatencyMeasurement::from_round_trip(3, 1000, 1251, "t".to_string());
    assert_eq!(m.rtt_us, 251);
    assert_eq!(m.estimated_one_way_us, 125);
    let m = LatencyMeasurement::from_round_trip(4, 1000, 997, "t".to_string());
    assert_eq!(m.estimated_one_way_us, -1);
}

#[test]
fn percentile_ranks_are_ordered() {
    let s = summarize_rtts(&[900, 100, 700, 300, 500, 200, 800, 400, 600, 1000]);
    // Ranks 5, 10 and 10 are the nearest ranks of p50, p95 and p99 for ten values.
    let p50 = value_at_rank(&s.sorted, 5);
    let p95 = value_at_rank(&s.sorted, 10);
    let p99 = value_at_rank(&s.sorted, 10);
    assert_eq!(p50, 500);
    assert_eq!(p95, 1000);
    assert!(s.min_us <= p50 && p50 <= p95 && p95 <= p99 && p99 <= s.max_us);
}

#[test]
fn nearest_ranks_of_common_percentiles() {
    assert_eq!(nearest_rank(50, 5), 3);
    assert_eq!(nearest_rank(95, 5), 5);
    assert_eq!(nearest_rank(99, 100), 99);
    assert_eq!(nearest_rank(95, 20), 19);
    assert_eq!(nearest_rank(50, 0), 0);
    assert_eq!(nearest_rank(100, usize::MAX), usize::MAX);
}

#[test]
fn percentiles_of_a_batch() {
    let s = summarize_rtts(&[100, 200, 300, 400, 500]);
    assert_eq!(percentile(&s.sorted, 50), 300);
    assert_eq!(percentile(&s.sorted, 95), 500);
    assert_eq!(percentile(&s.sorted, 99), 500);
    let one = summarize_rtts(&[42]);
    assert_eq!(percentile(&one.sorted, 50), 42);
    assert_eq!(percentile(&one.sorted, 99), 42);
}

#[test]
fn summary_does_not_depend_on_order() {
    let a = summarize_rtts(&[5, -3, 9, 5, 0]);
    let b = summarize_rtts(&[9, 5, 0, 5, -3]);
    assert_eq!(a.sorted, b.sorted);
    assert_eq!((a.count, a.min_us, a.max_us, a.sum_us), (b.count, b.min_us, b.max_us, b.sum_us));
}
