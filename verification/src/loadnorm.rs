//! Normalizer for an external load generator's structured summary.
//!
//! The tool reports already-computed aggregates (average, fastest, slowest,
//! percentiles, requests per second, success rate, bytes per second). They
//! are mapped directly into the result shape, trusted as given, never
//! re-derived — the raw per-request samples are not available from that
//! source. Standard-deviation fields are a defined-zero placeholder, a
//! known limitation, not a silent approximation.
//!
//! The caller reads the tool's output and hands every quantity in as an
//! integer count of micro-units (millionths): rates as micro-rate
//! (1.0 = 1_000_000), seconds as microseconds. A field the output lacked is
//! `None`, and any missing field is a fatal normalization error — metrics
//! are never guessed from a default.

use vstd::prelude::*;

verus! {

/// Micro-units of the full rate 1.0.
pub const RATE_ONE: u64 = 1_000_000;

/// Largest value that survives the seconds-to-milliseconds scaling.
pub const MAX_SCALABLE: u64 = u64::MAX / 1000;

/// Largest accepted rate-per-second or duration input, in micro-units
/// (2^50).
pub const MAX_MAGNITUDE: u64 = 1125899906842624;

/// The external tool's summary fields, each in micro-units, `None` where
/// the output lacked the field.
pub struct RawLoadSummary {
    /// Fraction of requests that succeeded, micro-units of a 0..=1 rate.
    pub success_rate: Option<u64>,
    /// Requests per second, micro-units.
    pub requests_per_sec: Option<u64>,
    /// Wall-clock duration of the whole run, microseconds.
    pub total_duration: Option<u64>,
    /// Mean request latency, microseconds.
    pub average: Option<u64>,
    /// Least request latency, microseconds.
    pub fastest: Option<u64>,
    /// Greatest request latency, microseconds.
    pub slowest: Option<u64>,
    /// Latency percentiles, microseconds.
    pub p50: Option<u64>,
    pub p90: Option<u64>,
    pub p95: Option<u64>,
    pub p99: Option<u64>,
    /// Bytes per second, micro-units.
    pub size_per_sec: Option<u64>,
}

/// Request-count statistics of one load-test run. `total` is the
/// reconstructed request count; the remaining fields mirror the reported
/// per-second rate. Unreported spreads are defined-zero.
pub struct RequestStats {
    pub total: u64,
    pub average: u64,
    pub mean: u64,
    pub stddev: u64,
    pub min: u64,
    pub max: u64,
}

/// Latency statistics of one load-test run, in micro-milliseconds.
pub struct LatencyStats {
    pub average: u64,
    pub mean: u64,
    pub stddev: u64,
    pub min: u64,
    pub max: u64,
    pub p50: u64,
    pub p90: u64,
    pub p95: u64,
    pub p99: u64,
}

/// Throughput statistics of one load-test run, in micro-(bytes/second).
pub struct ThroughputStats {
    pub average: u64,
    pub mean: u64,
    pub stddev: u64,
    pub min: u64,
    pub max: u64,
}

/// One target's normalized load-test result.
pub struct LoadTestResult {
    pub requests: RequestStats,
    pub latency: LatencyStats,
    pub throughput: ThroughputStats,
    pub errors: u64,
    pub timeouts: u64,
    /// Wall-clock duration of the run, microseconds.
    pub duration: u64,
    pub start: String,
    pub finish: String,
}

/// Why a summary could not be normalized.
#[derive(Debug)]
pub enum SummaryError {
    /// The tool's output lacked a field the metrics need; failing is
    /// safer than guessing a default.
    MissingField,
}

/// Every field the normalizer reads is present.
pub open spec fn complete(raw: RawLoadSummary) -> bool {
    &&& raw.success_rate is Some
    &&& raw.requests_per_sec is Some
    &&& raw.total_duration is Some
    &&& raw.average is Some
    &&& raw.fastest is Some
    &&& raw.slowest is Some
    &&& raw.p50 is Some
    &&& raw.p90 is Some
    &&& raw.p95 is Some
    &&& raw.p99 is Some
    &&& raw.size_per_sec is Some
}

/// The value of a present field, for speaking about `complete` summaries.
pub open spec fn field_of(o: Option<u64>) -> int {
    match o {
        Some(v) => v as int,
        None => 0,
    }
}

pub open spec fn le_opt(o: Option<u64>, bound: u64) -> bool {
    match o {
        Some(v) => v <= bound,
        None => true,
    }
}

/// Machine limits under which the fixed-point arithmetic cannot overflow,
/// and the domain bound that a success rate is at most 1.
pub open spec fn in_range(raw: RawLoadSummary) -> bool {
    &&& le_opt(raw.success_rate, RATE_ONE)
    &&& le_opt(raw.requests_per_sec, MAX_MAGNITUDE)
    &&& le_opt(raw.total_duration, MAX_MAGNITUDE)
    &&& le_opt(raw.average, MAX_SCALABLE)
    &&& le_opt(raw.fastest, MAX_SCALABLE)
    &&& le_opt(raw.slowest, MAX_SCALABLE)
    &&& le_opt(raw.p50, MAX_SCALABLE)
    &&& le_opt(raw.p90, MAX_SCALABLE)
    &&& le_opt(raw.p95, MAX_SCALABLE)
    &&& le_opt(raw.p99, MAX_SCALABLE)
}

/// The reconstructed total request count: success rate times requests per
/// second times duration, truncated. The three factors are micro-scaled,
/// so the product carries a scale of 10^18.
pub open spec fn spec_total_requests(raw: RawLoadSummary) -> int {
    field_of(raw.success_rate) * field_of(raw.requests_per_sec) * field_of(raw.total_duration)
        / 1_000_000_000_000_000_000
}

/// The error count derived from the success rate: the failing fraction of
/// the reconstructed total, truncated.
pub open spec fn spec_errors(raw: RawLoadSummary) -> int {
    (RATE_ONE - field_of(raw.success_rate)) * spec_total_requests(raw) / 1_000_000
}

/// What `normalize_external_summary` promises of its result on a complete
/// summary: every reported aggregate mapped into place (seconds scaled to
/// milliseconds by the factor 1000), spreads defined-zero, and the
/// truncating reconstruction of totals and errors.
pub open spec fn normalized(t: LoadTestResult, raw: RawLoadSummary, start: Seq<char>, finish: Seq<char>) -> bool {
    &&& t.requests.total == spec_total_requests(raw)
    &&& t.requests.average == field_of(raw.requests_per_sec)
    &&& t.requests.mean == field_of(raw.requests_per_sec)
    &&& t.requests.stddev == 0
    &&& t.requests.min == 0
    &&& t.requests.max == 0
    &&& t.latency.average == field_of(raw.average) * 1000
    &&& t.latency.mean == field_of(raw.average) * 1000
    &&& t.latency.stddev == 0
    &&& t.latency.min == field_of(raw.fastest) * 1000
    &&& t.latency.max == field_of(raw.slowest) * 1000
    &&& t.latency.p50 == field_of(raw.p50) * 1000
    &&& t.latency.p90 == field_of(raw.p90) * 1000
    &&& t.latency.p95 == field_of(raw.p95) * 1000
    &&& t.latency.p99 == field_of(raw.p99) * 1000
    &&& t.throughput.average == field_of(raw.size_per_sec)
    &&& t.throughput.mean == field_of(raw.size_per_sec)
    &&& t.throughput.stddev == 0
    &&& t.throughput.min == 0
    &&& t.throughput.max == 0
    &&& t.errors == spec_errors(raw)
    &&& t.timeouts == 0
    &&& t.duration == field_of(raw.total_duration)
    &&& t.start@ == start
    &&& t.finish@ == finish
}

fn required(o: Option<u64>) -> (r: Result<u64, SummaryError>)
    ensures
        match r {
            Ok(v) => o == Some(v),
            Err(e) => o is None && e == SummaryError::MissingField,
        },
{
    match o {
        Some(v) => Ok(v),
        None => Err(SummaryError::MissingField),
    }
}

/// Maps the external tool's reported aggregates into the result shape
/// without recomputation, per `normalized`. Fails with `MissingField`
/// exactly when the summary is not complete. `start` and `finish` are the
/// run's boundary timestamps, formatted by the caller.
pub fn normalize_external_summary(raw: &RawLoadSummary, start: String, finish: String) -> (r: Result<
    LoadTestResult,
    SummaryError,
>)
    requires
        in_range(*raw),
    ensures
        match r {
            Ok(t) => complete(*raw) && normalized(t, *raw, start@, finish@),
            Err(e) => !complete(*raw) && e == SummaryError::MissingField,
        },
{
    let sr = match required(raw.success_rate) {
        Ok(v) => v,
        Err(e) => return Err(e),
    };
    let rps = match required(raw.requests_per_sec) {
        Ok(v) => v,
        Err(e) => return Err(e),
    };
    let dur = match required(raw.total_duration) {
        Ok(v) => v,
        Err(e) => return Err(e),
    };
    let avg = match required(raw.average) {
        Ok(v) => v,
        Err(e) => return Err(e),
    };
    let fastest = match required(raw.fastest) {
        Ok(v) => v,
        Err(e) => return Err(e),
    };
    let slowest = match required(raw.slowest) {
        Ok(v) => v,
        Err(e) => return Err(e),
    };
    let p50 = match required(raw.p50) {
        Ok(v) => v,
        Err(e) => return Err(e),
    };
    let p90 = match required(raw.p90) {
        Ok(v) => v,
        Err(e) => return Err(e),
    };
    let p95 = match required(raw.p95) {
        Ok(v) => v,
        Err(e) => return Err(e),
    };
    let p99 = match required(raw.p99) {
        Ok(v) => v,
        Err(e) => return Err(e),
    };
    let sps = match required(raw.size_per_sec) {
        Ok(v) => v,
        Err(e) => return Err(e),
    };

    proof {
        assert(0 <= sr as int * rps as int <= 1125899906842624000000int) by (nonlinear_arith)
            requires
                0 <= sr <= 1_000_000,
                0 <= rps <= 1125899906842624,
        ;
        assert(0 <= (sr as int * rps as int) * dur as int
            <= 1267650600228229401496703205376000000int) by (nonlinear_arith)
            requires
                0 <= sr as int * rps as int <= 1125899906842624000000int,
                0 <= dur <= 1125899906842624,
        ;
    }
    let product: u128 = sr as u128 * rps as u128 * dur as u128;
    let total_wide: u128 = product / 1_000_000_000_000_000_000u128;
    proof {
        vstd::arithmetic::div_mod::lemma_div_is_ordered(
            product as int,
            1267650600228229401496703205376000000int,
            1_000_000_000_000_000_000,
        );
        assert(total_wide <= u64::MAX);
    }
    let total = total_wide as u64;
    proof {
        assert(0 <= (RATE_ONE - sr) as int * total as int
            <= RATE_ONE as int * total as int) by (nonlinear_arith)
            requires
                0 <= sr <= RATE_ONE,
                total >= 0,
        ;
        vstd::arithmetic::div_mod::lemma_div_is_ordered(
            (RATE_ONE - sr) as int * total as int,
            RATE_ONE as int * total as int,
            RATE_ONE as int,
        );
        vstd::arithmetic::div_mod::lemma_div_by_multiple(total as int, RATE_ONE as int);
        vstd::arithmetic::div_mod::lemma_div_pos_is_pos(
            (RATE_ONE - sr) as int * total as int,
            RATE_ONE as int,
        );
    }
    let errors = (((RATE_ONE - sr) as u128 * total as u128) / RATE_ONE as u128) as u64;

    Ok(LoadTestResult {
        requests: RequestStats {
            total,
            average: rps,
            mean: rps,
            stddev: 0,
            min: 0,
            max: 0,
        },
        latency: LatencyStats {
            average: avg * 1000,
            mean: avg * 1000,
            stddev: 0,
            min: fastest * 1000,
            max: slowest * 1000,
            p50: p50 * 1000,
            p90: p90 * 1000,
            p95: p95 * 1000,
            p99: p99 * 1000,
        },
        throughput: ThroughputStats {
            average: sps,
            mean: sps,
            stddev: 0,
            min: 0,
            max: 0,
        },
        errors,
        timeouts: 0,
        duration: dur,
        start,
        finish,
    })
}

} // verus!
