use benchmark::collector::{Collector, ProbeOutcome};
use benchmark::comparison::{compare, lookup, percent_diff, percent_gain, summarize};
use benchmark::stats::{percentile, reduce, sort_samples, MetricSet, StatsError};

fn metrics_with_avg(avg: u64) -> MetricSet {
    MetricSet {
        min: avg,
        max: avg,
        avg,
        p50: avg,
        p95: avg,
        p99: avg,
        avg_size: None,
        errors: 0,
        success_hundredths: 10000,
    }
}

#[test]
fn reduce_orders_percentiles() {
    let samples = vec![5u64, 9, 1, 7, 3];
    let m = reduce(&samples).unwrap();
    assert!(m.min <= m.p50);
    assert!(m.p50 <= m.p95);
    assert!(m.p95 <= m.p99);
    assert!(m.p99 <= m.max);
    assert_eq!(m.min, 1);
    assert_eq!(m.max, 9);
    assert_eq!(m.avg, 5);
    assert_eq!(m.p50, 5);
    assert_eq!(m.p95, 7);
    assert_eq!(m.p99, 7);
}

#[test]
fn reduce_single_sample() {
    let samples = vec![10u64];
    let m = reduce(&samples).unwrap();
    assert_eq!(m.min, 10);
    assert_eq!(m.max, 10);
    assert_eq!(m.avg, 10);
    assert_eq!(m.p50, 10);
    assert_eq!(m.p95, 10);
    assert_eq!(m.p99, 10);
}

#[test]
fn reduce_five_samples_nearest_rank() {
    let samples = vec![1u64, 2, 3, 4, 5];
    let m = reduce(&samples).unwrap();
    // p50 = sorted[floor(0.50 * 4)] = sorted[2], p95 = p99 = sorted[3]
    assert_eq!(m.p50, 3);
    assert_eq!(m.p95, 4);
    assert_eq!(m.p99, 4);
    assert_eq!(m.min, 1);
    assert_eq!(m.max, 5);
    assert_eq!(m.avg, 3);
}

#[test]
fn reduce_empty_is_an_error() {
    let samples: Vec<u64> = vec![];
    let r = reduce(&samples);
    assert!(matches!(r, Err(StatsError::EmptySamples)));
}

#[test]
fn reduce_truncates_average() {
    let samples = vec![1u64, 2];
    let m = reduce(&samples).unwrap();
    assert_eq!(m.avg, 1); // 3 / 2 truncated
}

#[test]
fn sort_samples_sorts_ascending() {
    let v = vec![3u64, 1, 2, 2];
    let s = sort_samples(&v);
    assert_eq!(s, vec![1, 2, 2, 3]);
}

#[test]
fn percentile_of_sorted_data() {
    let sorted = vec![1u64, 2, 3, 4, 5];
    assert_eq!(percentile(&sorted, 0), 1);
    assert_eq!(percentile(&sorted, 50), 3);
    assert_eq!(percentile(&sorted, 95), 4);
    assert_eq!(percentile(&sorted, 100), 5);
}

#[test]
fn compare_lower_average_wins() {
    let a = metrics_with_avg(100);
    let b = metrics_with_avg(120);
    let c = compare("A", &a, "B", &b);
    assert_eq!(c.winner, "A");
    assert!(c.difference.neg);
    assert_eq!(c.difference.num, 2000); // 100 * (120 - 100)
    assert_eq!(c.difference.den, 120);
    let value = -((c.difference.num as f64) / (c.difference.den as f64));
    assert!((value - (-16.67)).abs() < 0.01); // about -16.67 %
}

#[test]
fn compare_tie_goes_to_second() {
    let a = metrics_with_avg(120);
    let b = metrics_with_avg(120);
    let c = compare("A", &a, "B", &b);
    assert_eq!(c.winner, "B");
    assert_eq!(c.difference.num, 0);
    assert!(!c.difference.neg);
}

#[test]
fn percent_diff_signs() {
    let d = percent_diff(150, 100);
    assert!(!d.neg);
    assert_eq!(d.num, 5000);
    assert_eq!(d.den, 100);
    let d2 = percent_diff(50, 100);
    assert!(d2.neg);
    assert_eq!(d2.num, 5000);
}

#[test]
fn percent_gain_signs() {
    let g = percent_gain(80, 100); // a lower than b: positive gain
    assert!(!g.neg);
    assert_eq!(g.num, 2000);
    assert_eq!(g.den, 100);
    let g2 = percent_gain(120, 100);
    assert!(g2.neg);
}

#[test]
fn summarize_averages_pairs() {
    let pairs = vec![(100u64, 120u64), (200, 180)];
    let s = summarize(&pairs).unwrap();
    assert_eq!(s.a_avg, 150);
    assert_eq!(s.b_avg, 150);
    let imp = s.improvement.unwrap();
    assert_eq!(imp.num, 0);
    assert!(!imp.neg);
}

#[test]
fn summarize_empty_is_none() {
    let pairs: Vec<(u64, u64)> = vec![];
    assert!(summarize(&pairs).is_none());
}

#[test]
fn lookup_finds_first_match() {
    let results = vec![
        (String::from("home"), metrics_with_avg(10)),
        (String::from("about"), metrics_with_avg(20)),
    ];
    let found = lookup(&results, &String::from("about")).unwrap();
    assert_eq!(found.avg, 20);
    assert!(lookup(&results, &String::from("missing")).is_none());
}

#[test]
fn collector_discards_warmup_and_counts_failures() {
    let mut c = Collector::new(1, 3);
    assert!(!c.is_done());
    c.record(ProbeOutcome::Failure); // warmup, discarded
    c.record(ProbeOutcome::Success { elapsed: 10, size: 100 });
    c.record(ProbeOutcome::Failure);
    c.record(ProbeOutcome::Success { elapsed: 30, size: 300 });
    assert!(c.is_done());
    let m = c.finish().unwrap();
    assert_eq!(m.errors, 1);
    assert_eq!(m.min, 10);
    assert_eq!(m.max, 30);
    assert_eq!(m.avg, 20);
    assert_eq!(m.p50, 10);
    assert_eq!(m.avg_size, Some(200));
    assert_eq!(m.success_hundredths, 6666); // 100 * 2/3 %, in hundredths, truncated
}

#[test]
fn collector_all_failures_is_an_error() {
    let mut c = Collector::new(0, 2);
    c.record(ProbeOutcome::Failure);
    c.record(ProbeOutcome::Failure);
    let r = c.finish();
    assert!(matches!(r, Err(StatsError::EmptySamples)));
}
