use miniapm::stats::{
    calculate_percentile, latency_stats, mean_in_ms, ns_to_ms, percentile_index, round_div,
    LatencyStats,
};

#[test]
fn test_calculate_percentile_p50() {
    let values = vec![10, 20, 30, 40, 50, 60, 70, 80, 90, 100];
    let p50 = calculate_percentile(&values, 50);
    // Index = round(0.5 * 9) = round(4.5) = 5 -> values[5] = 60
    assert_eq!(p50, 60);
}

#[test]
fn test_calculate_percentile_p95() {
    let values = vec![10, 20, 30, 40, 50, 60, 70, 80, 90, 100];
    let p95 = calculate_percentile(&values, 95);
    // Index = round(0.95 * 9) = round(8.55) = 9 -> values[9] = 100
    assert_eq!(p95, 100);
}

#[test]
fn test_calculate_percentile_p99() {
    let values: Vec<i64> = (1..=100).collect();
    let p99 = calculate_percentile(&values, 99);
    // Index = round(0.99 * 99) = round(98.01) = 98 -> values[98] = 99
    assert_eq!(p99, 99);
}

#[test]
fn test_calculate_percentile_single_value() {
    let values = vec![42];
    assert_eq!(calculate_percentile(&values, 50), 42);
    assert_eq!(calculate_percentile(&values, 95), 42);
    assert_eq!(calculate_percentile(&values, 99), 42);
}

#[test]
fn test_calculate_percentile_empty() {
    let values: Vec<i64> = vec![];
    assert_eq!(calculate_percentile(&values, 50), 0);
}

#[test]
fn test_calculate_percentile_two_values() {
    let values = vec![10, 100];
    // p50: index = round(0.5 * 1) = 1 -> 100
    assert_eq!(calculate_percentile(&values, 50), 100);
    // p0: index = round(0 * 1) = 0 -> 10
    assert_eq!(calculate_percentile(&values, 0), 10);
    // p100: index = round(1 * 1) = 1 -> 100
    assert_eq!(calculate_percentile(&values, 100), 100);
}

#[test]
fn test_latency_stats_structure() {
    let stats = LatencyStats {
        avg_ms: 50,
        p95_ms: 95,
        p99_ms: 99,
    };
    assert_eq!(stats.avg_ms, 50);
    assert_eq!(stats.p95_ms, 95);
    assert_eq!(stats.p99_ms, 99);
}

#[test]
fn percentiles_of_one_to_a_hundred() {
    let values: Vec<i64> = (1..=100).collect();
    // Index = round(0.95 * 99) = round(94.05) = 94 -> values[94] = 95
    assert_eq!(percentile_index(100, 95), 94);
    assert_eq!(calculate_percentile(&values, 95), 95);
    assert_eq!(percentile_index(100, 99), 98);
    assert_eq!(calculate_percentile(&values, 99), 99);
    assert_eq!(calculate_percentile(&values, 50), 51);
    assert_eq!(calculate_percentile(&values, 100), 100);
    assert_eq!(calculate_percentile(&values, 0), 1);
}

#[test]
fn percentile_index_rounds_halves_up_and_stays_in_the_list() {
    assert_eq!(percentile_index(1, 0), 0);
    assert_eq!(percentile_index(1, 100), 0);
    assert_eq!(percentile_index(2, 49), 0);
    assert_eq!(percentile_index(2, 50), 1);
    assert_eq!(percentile_index(3, 25), 1);
    assert_eq!(percentile_index(3, 24), 0);
    assert_eq!(percentile_index(11, 95), 10);
    assert_eq!(percentile_index(11, 94), 9);
    // A percentile above 100 is cut off at the last index.
    assert_eq!(percentile_index(10, 250), 9);
    assert_eq!(percentile_index(10, u32::MAX), 9);
    assert_eq!(
        percentile_index(usize::MAX, 50),
        ((usize::MAX as u128 - 1 + 1) / 2) as usize
    );
}

#[test]
fn percentiles_are_ordered_on_sorted_lists() {
    let lists: Vec<Vec<i64>> = vec![
        vec![5],
        vec![1, 2],
        vec![1, 2, 3],
        vec![-7, -7, 0, 3, 9, 9, 100],
        (0..1000).map(|x| x * x).collect(),
    ];
    for values in lists {
        let max = *values.last().unwrap();
        let p50 = calculate_percentile(&values, 50);
        let p95 = calculate_percentile(&values, 95);
        let p99 = calculate_percentile(&values, 99);
        assert!(p50 <= p95);
        assert!(p95 <= p99);
        assert!(p99 <= max);
    }
}

#[test]
fn rounding_goes_away_from_zero_at_the_half() {
    assert_eq!(round_div(0, 1), 0);
    assert_eq!(round_div(7, 2), 4);
    assert_eq!(round_div(-7, 2), -4);
    assert_eq!(round_div(5, 2), 3);
    assert_eq!(round_div(-5, 2), -3);
    assert_eq!(round_div(4, 3), 1);
    assert_eq!(round_div(5, 3), 2);
    assert_eq!(round_div(-4, 3), -1);
    assert_eq!(round_div(-5, 3), -2);
    assert_eq!(round_div(i128::MAX, 1), i128::MAX);
    assert_eq!(round_div(i128::MIN + 1, 1), i128::MIN + 1);
    assert_eq!(round_div(1, u128::MAX), 0);
    assert_eq!(ns_to_ms(0), 0);
    assert_eq!(ns_to_ms(499_999), 0);
    assert_eq!(ns_to_ms(500_000), 1);
    assert_eq!(ns_to_ms(-500_000), -1);
    assert_eq!(ns_to_ms(-499_999), 0);
    assert_eq!(ns_to_ms(1_500_000), 2);
    assert_eq!(ns_to_ms(i64::MAX), 9_223_372_036_855);
    assert_eq!(ns_to_ms(i64::MIN), -9_223_372_036_855);
}

#[test]
fn latency_stats_of_durations() {
    assert_eq!(latency_stats(&[]), LatencyStats { avg_ms: 0, p95_ms: 0, p99_ms: 0 });
    let ms: i64 = 1_000_000;
    let values: Vec<i64> = (1..=100).map(|x| x * ms).collect();
    assert_eq!(latency_stats(&values), LatencyStats { avg_ms: 51, p95_ms: 95, p99_ms: 99 });
    // The mean of 1 ms and 2 ms is 1.5 ms, which rounds to 2.
    assert_eq!(mean_in_ms(&[ms, 2 * ms]), 2);
    assert_eq!(mean_in_ms(&[ms, ms, 2 * ms]), 1);
    assert_eq!(mean_in_ms(&[-ms, -2 * ms]), -2);
    assert_eq!(mean_in_ms(&[i64::MAX, i64::MAX, i64::MAX]), 9_223_372_036_855);
    assert_eq!(mean_in_ms(&[i64::MIN, i64::MIN]), -9_223_372_036_855);
    assert_eq!(
        latency_stats(&[250_000, 700_000]),
        LatencyStats { avg_ms: 0, p95_ms: 1, p99_ms: 1 }
    );
}
