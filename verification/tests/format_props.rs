use benchmark::buildscan::{analyze_build, count_errors, count_matches, count_warnings, format_kb};
use benchmark::loadnorm::{normalize_external_summary, RawLoadSummary, SummaryError};
use benchmark::numfmt::u64_to_string;
use benchmark::report::{
    assemble, dated_filename, report_to_json, Report, RunConfig, TargetResults,
};
use benchmark::stats::MetricSet;
use benchmark::timefmt::{decompose_days, format_date, format_timestamp};

fn chars_of(s: &str) -> Vec<char> {
    s.chars().collect()
}

#[test]
fn timestamp_at_epoch() {
    assert_eq!(format_timestamp(0), "1970-01-01T00:00:00Z");
    assert_eq!(format_date(0), "1970-01-01");
}

#[test]
fn timestamp_on_leap_days() {
    // 2024 is divisible by 4 and not a century exclusion.
    assert_eq!(format_timestamp(1709164800), "2024-02-29T00:00:00Z");
    // 2000 is divisible by 400, so it keeps its leap day.
    assert_eq!(format_timestamp(951782400), "2000-02-29T00:00:00Z");
    assert_eq!(format_date(1709164800), "2024-02-29");
}

#[test]
fn timestamp_time_of_day() {
    assert_eq!(format_timestamp(86399), "1970-01-01T23:59:59Z");
    assert_eq!(format_timestamp(1615687166), "2021-03-14T01:59:26Z");
}

#[test]
fn non_leap_century_has_no_leap_day() {
    // 2100 is divisible by 100 but not by 400: no leap day. Days from the
    // epoch to 2100-01-01 are 130 * 365 + 32 leap days = 47482; adding
    // January and 27 more lands on 2100-02-28, and the next day must
    // already be March 1st.
    let (y, m, d) = decompose_days(47540);
    assert_eq!((y, m, d), (2100, 2, 28));
    let (y2, m2, d2) = decompose_days(47541);
    assert_eq!((y2, m2, d2), (2100, 3, 1));
}

#[test]
fn u64_decimal_digits() {
    assert_eq!(u64_to_string(0), "0");
    assert_eq!(u64_to_string(1234), "1234");
    assert_eq!(u64_to_string(u64::MAX), "18446744073709551615");
}

#[test]
fn warning_counting_subtracts_deprecations() {
    let text = chars_of("warning Warning WARNING DeprecationWarning");
    // "Warning" also matches inside "DeprecationWarning": raw = 1 + 2 + 1,
    // recognized deprecation markers = 1.
    assert_eq!(count_warnings(&text), 3);
}

#[test]
fn warning_counting_saturates_at_zero() {
    let text = chars_of("[DEP0001] [DEP0002]");
    assert_eq!(count_warnings(&text), 0);
}

#[test]
fn error_counting_is_a_substring_heuristic() {
    let text = chars_of("error Error ERROR ErrorBoundary");
    // "ErrorBoundary" counts: the heuristic is preserved, not tightened.
    assert_eq!(count_errors(&text), 4);
}

#[test]
fn match_counting_does_not_overlap() {
    let text = chars_of("aaaa");
    let pat = chars_of("aa");
    assert_eq!(count_matches(&text, &pat), 2);
}

#[test]
fn kb_formatting_rounds_to_hundredths() {
    assert_eq!(format_kb(2048), "2.00 kB");
    assert_eq!(format_kb(1536), "1.50 kB");
    assert_eq!(format_kb(100), "0.10 kB");
}

#[test]
fn build_analysis_assembles_fields() {
    let out = chars_of("1 warning, 0 errors");
    let r = analyze_build(true, 1_500_000, &out, Some((2048, 3)));
    assert!(r.success);
    assert_eq!(r.duration_micros, 1_500_000);
    assert_eq!(r.warnings, 1);
    assert_eq!(r.errors, 1); // "errors" contains "error"
    assert_eq!(r.bundle_size.as_deref(), Some("2.00 kB"));
    assert_eq!(r.chunk_count, Some(3));

    let failed = analyze_build(false, 10, &out, None);
    assert!(failed.bundle_size.is_none());
    assert!(failed.chunk_count.is_none());
}

fn complete_raw() -> RawLoadSummary {
    RawLoadSummary {
        success_rate: Some(950_000),        // 0.95
        requests_per_sec: Some(100_000_000), // 100 rps
        total_duration: Some(10_000_000),   // 10 s
        average: Some(250_000),             // 0.25 s
        fastest: Some(10_000),              // 0.01 s
        slowest: Some(900_000),             // 0.9 s
        p50: Some(200_000),
        p90: Some(500_000),
        p95: Some(600_000),
        p99: Some(800_000),
        size_per_sec: Some(123_456),
    }
}

#[test]
fn normalize_maps_reported_fields() {
    let raw = complete_raw();
    let r = normalize_external_summary(&raw, String::from("S"), String::from("F")).unwrap();
    // 0.95 * 100 rps * 10 s = 950 requests, truncated.
    assert_eq!(r.requests.total, 950);
    assert_eq!(r.requests.average, 100_000_000);
    assert_eq!(r.requests.stddev, 0);
    // seconds scaled to milliseconds: 0.25 s -> 250 ms.
    assert_eq!(r.latency.average, 250_000_000);
    assert_eq!(r.latency.min, 10_000_000);
    assert_eq!(r.latency.max, 900_000_000);
    assert_eq!(r.latency.p99, 800_000_000);
    assert_eq!(r.latency.stddev, 0);
    assert_eq!(r.throughput.average, 123_456);
    // (1 - 0.95) * 950 = 47.5, truncated to 47.
    assert_eq!(r.errors, 47);
    assert_eq!(r.timeouts, 0);
    assert_eq!(r.duration, 10_000_000);
    assert_eq!(r.start, "S");
    assert_eq!(r.finish, "F");
}

#[test]
fn normalize_missing_field_is_fatal() {
    let mut raw = complete_raw();
    raw.p95 = None;
    let r = normalize_external_summary(&raw, String::new(), String::new());
    assert!(matches!(r, Err(SummaryError::MissingField)));
}

#[test]
fn dated_filename_is_deterministic() {
    let a = dated_filename("performance", "2024-02-29");
    assert_eq!(a, "performance-2024-02-29.json");
    let b = dated_filename("performance", "2024-02-29");
    assert_eq!(a, b); // same date, same file: the write overwrites it
}

fn sample_metrics() -> MetricSet {
    MetricSet {
        min: 1_500,
        max: 9_000,
        avg: 4_000,
        p50: 3_000,
        p95: 8_000,
        p99: 9_000,
        avg_size: Some(200),
        errors: 1,
        success_hundredths: 9_550,
    }
}

fn sample_report() -> Report {
    assemble(
        String::from("1970-01-01T00:00:00Z"),
        TargetResults {
            name: String::from("rari"),
            results: vec![(String::from("Home"), sample_metrics())],
        },
        TargetResults { name: String::from("nextjs"), results: vec![] },
        RunConfig { test_requests: 20, warmup_requests: 50, scenarios: 1 },
    )
}

#[test]
fn report_json_minimal_shape() {
    let r = assemble(
        String::from("T0"),
        TargetResults { name: String::from("a"), results: vec![] },
        TargetResults { name: String::from("b"), results: vec![] },
        RunConfig { test_requests: 20, warmup_requests: 50, scenarios: 0 },
    );
    let json = report_to_json(&r);
    let expected = "{\n  \"timestamp\": \"T0\",\n  \"a\": {},\n  \"b\": {},\n  \"summary\": {\n    \"testRequests\": 20,\n    \"warmupRequests\": 50,\n    \"scenarios\": 0\n  }\n}";
    assert_eq!(json, expected);
}

#[test]
fn report_json_round_trips_through_a_parser() {
    let r = sample_report();
    let json = report_to_json(&r);
    let v: serde_json::Value = serde_json::from_str(&json).unwrap();
    assert_eq!(v["timestamp"].as_str().unwrap(), "1970-01-01T00:00:00Z");
    let home = &v["rari"]["Home"];
    // micro-units serialized in their thousandfold unit
    assert_eq!(home["min"].as_f64().unwrap(), 1.5);
    assert_eq!(home["max"].as_f64().unwrap(), 9.0);
    assert_eq!(home["avg"].as_f64().unwrap(), 4.0);
    assert_eq!(home["p50"].as_f64().unwrap(), 3.0);
    assert_eq!(home["p95"].as_f64().unwrap(), 8.0);
    assert_eq!(home["p99"].as_f64().unwrap(), 9.0);
    assert_eq!(home["avgSize"].as_u64().unwrap(), 200);
    assert_eq!(home["errors"].as_u64().unwrap(), 1);
    assert_eq!(home["successRate"].as_f64().unwrap(), 95.5);
    assert!(v["nextjs"].as_object().unwrap().is_empty());
    assert_eq!(v["summary"]["testRequests"].as_u64().unwrap(), 20);
    assert_eq!(v["summary"]["warmupRequests"].as_u64().unwrap(), 50);
    assert_eq!(v["summary"]["scenarios"].as_u64().unwrap(), 1);
}

#[test]
fn report_equality_is_independent_of_key_order() {
    let r = sample_report();
    let json = report_to_json(&r);
    let v: serde_json::Value = serde_json::from_str(&json).unwrap();
    // The same content with its top-level keys in another order parses to
    // an equal value: key order carries no meaning.
    let reordered = format!(
        "{{\"summary\": {}, \"nextjs\": {}, \"rari\": {}, \"timestamp\": {}}}",
        v["summary"], v["nextjs"], v["rari"], v["timestamp"]
    );
    let w: serde_json::Value = serde_json::from_str(&reordered).unwrap();
    assert_eq!(v, w);
}

#[test]
fn int_if_whole_serialization() {
    let mut m = sample_metrics();
    m.min = 2_000; // mathematically whole: 2 ms
    m.success_hundredths = 10_000; // exactly 100 %
    let r = assemble(
        String::from("T0"),
        TargetResults {
            name: String::from("a"),
            results: vec![(String::from("s"), m)],
        },
        TargetResults { name: String::from("b"), results: vec![] },
        RunConfig { test_requests: 1, warmup_requests: 0, scenarios: 1 },
    );
    let json = report_to_json(&r);
    assert!(json.contains("\"min\": 2,"));
    assert!(json.contains("\"successRate\": 100\n"));
    assert!(json.contains("\"max\": 9,"));
    assert!(json.contains("\"min\": 2,"));
    assert!(json.contains("\"p50\": 3,"));
}
