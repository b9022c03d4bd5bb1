//! Report assembly and canonical serialization.
//!
//! `assemble` is pure construction; writing the serialized bytes to a
//! dated file (and, for the latest-tracked report, to its fixed-name
//! copy) is the caller's whole-file write. The serialized shape is
//! pretty-printed JSON with two-space indentation and stable key order:
//! `timestamp`, one key per compared target, `summary`. Numeric fields
//! that are mathematically whole are serialized without a decimal point,
//! fractional ones with one, consistently for every metric field.

use vstd::prelude::*;

verus! {

use crate::numfmt::char_val;
use crate::numfmt::dec_str;
use crate::numfmt::pad2_str;
use crate::numfmt::pad3_str;
use crate::numfmt::push_pad2;
use crate::numfmt::push_pad3;
use crate::numfmt::push_u64;
use crate::stats::MetricSet;

/// A count of micro-units rendered in its thousandfold unit
/// (microseconds as milliseconds): whole when the fraction is zero, else
/// with exactly three decimals.
pub open spec fn scaled3_chars(v: int) -> Seq<char> {
    if v % 1000 == 0 {
        dec_str(v / 1000)
    } else {
        dec_str(v / 1000) + seq!['.'] + pad3_str(v % 1000)
    }
}

/// A count of hundredths rendered as its whole unit (a percentage from
/// hundredths of a percent): whole when the fraction is zero, else with
/// exactly two decimals.
pub open spec fn scaled2_chars(v: int) -> Seq<char> {
    if v % 100 == 0 {
        dec_str(v / 100)
    } else {
        dec_str(v / 100) + seq!['.'] + pad2_str(v % 100)
    }
}

/// Appends a micro-unit count in its thousandfold unit, exactly
/// `scaled3_chars`.
pub fn push_scaled3(s: &mut String, v: u64)
    ensures
        final(s)@ == old(s)@ + scaled3_chars(v as int),
{
    push_u64(s, v / 1000);
    if v % 1000 != 0 {
        proof {
            reveal_strlit(".");
        }
        s.append(".");
        push_pad3(s, v % 1000);
    }
    proof {
        assert(final(s)@ =~= old(s)@ + scaled3_chars(v as int));
    }
}

/// Appends a count of hundredths as its whole unit, exactly
/// `scaled2_chars`.
pub fn push_scaled2(s: &mut String, v: u64)
    ensures
        final(s)@ == old(s)@ + scaled2_chars(v as int),
{
    push_u64(s, v / 100);
    if v % 100 != 0 {
        proof {
            reveal_strlit(".");
        }
        s.append(".");
        push_pad2(s, v % 100);
    }
    proof {
        assert(final(s)@ =~= old(s)@ + scaled2_chars(v as int));
    }
}

/// Index of the first decimal point in `s`, or its length when it has
/// none.
pub open spec fn dot_index(s: Seq<char>) -> int
    decreases s.len(),
{
    if s.len() == 0 {
        0
    } else if s[0] == '.' {
        0
    } else {
        1 + dot_index(s.drop_first())
    }
}

/// The count of micro-units a serialized metric field denotes: the
/// digits before the decimal point as whole units, the digits after it
/// as the fraction.
#[verifier::opaque]
pub open spec fn scaled3_val(s: Seq<char>) -> int {
    let d = dot_index(s);
    if d == s.len() {
        crate::numfmt::digits_val(s) * 1000
    } else {
        crate::numfmt::digits_val(s.take(d)) * 1000 + crate::numfmt::digits_val(s.skip(d + 1))
    }
}

/// The count of hundredths a serialized rate field denotes.
#[verifier::opaque]
pub open spec fn scaled2_val(s: Seq<char>) -> int {
    let d = dot_index(s);
    if d == s.len() {
        crate::numfmt::digits_val(s) * 100
    } else {
        crate::numfmt::digits_val(s.take(d)) * 100 + crate::numfmt::digits_val(s.skip(d + 1))
    }
}

proof fn lemma_dot_index_digits(s: Seq<char>)
    requires
        crate::numfmt::all_digits(s),
    ensures
        dot_index(s) == s.len(),
    decreases s.len(),
{
    if s.len() == 0 {
    } else {
        assert(char_val(s[0]) <= 9);
        assert(s[0] != '.');
        assert(forall|i: int|
            0 <= i < s.drop_first().len() ==> s.drop_first()[i] == s[i + 1]);
        lemma_dot_index_digits(s.drop_first());
    }
}

proof fn lemma_dot_after_digits(a: Seq<char>, b: Seq<char>)
    requires
        crate::numfmt::all_digits(a),
    ensures
        dot_index(a + seq!['.'] + b) == a.len(),
    decreases a.len(),
{
    if a.len() == 0 {
        assert((a + seq!['.'] + b)[0] == '.');
    } else {
        assert((a + seq!['.'] + b)[0] == a[0]);
        assert(char_val(a[0]) <= 9);
        assert(a[0] != '.');
        assert((a + seq!['.'] + b).drop_first() =~= a.drop_first() + seq!['.'] + b);
        assert(forall|i: int|
            0 <= i < a.drop_first().len() ==> a.drop_first()[i] == a[i + 1]);
        lemma_dot_after_digits(a.drop_first(), b);
    }
}

/// Serialization loses nothing of a metric value: reading a serialized
/// micro-unit field back gives exactly the value that was serialized.
pub proof fn lemma_scaled3_round_trip(v: int)
    requires
        0 <= v,
    ensures
        scaled3_val(scaled3_chars(v)) == v,
{
    reveal(scaled3_val);
    crate::numfmt::lemma_dec_str_digits(v / 1000);
    vstd::arithmetic::div_mod::lemma_fundamental_div_mod(v, 1000);
    if v % 1000 == 0 {
        lemma_dot_index_digits(dec_str(v / 1000));
    } else {
        let w = v / 1000;
        let f = v % 1000;
        let s = scaled3_chars(v);
        crate::numfmt::lemma_pad3_digits(f);
        lemma_dot_after_digits(dec_str(w), pad3_str(f));
        assert(s =~= dec_str(w) + seq!['.'] + pad3_str(f));
        assert(dot_index(s) == dec_str(w).len());
        assert(s.take(dec_str(w).len() as int) =~= dec_str(w));
        assert(s.skip(dec_str(w).len() as int + 1) =~= pad3_str(f));
    }
}

/// Reading a serialized rate field back gives exactly the count of
/// hundredths that was serialized.
pub proof fn lemma_scaled2_round_trip(v: int)
    requires
        0 <= v,
    ensures
        scaled2_val(scaled2_chars(v)) == v,
{
    reveal(scaled2_val);
    crate::numfmt::lemma_dec_str_digits(v / 100);
    vstd::arithmetic::div_mod::lemma_fundamental_div_mod(v, 100);
    if v % 100 == 0 {
        lemma_dot_index_digits(dec_str(v / 100));
    } else {
        let w = v / 100;
        let f = v % 100;
        let s = scaled2_chars(v);
        crate::numfmt::lemma_pad2_digits(f);
        lemma_dot_after_digits(dec_str(w), pad2_str(f));
        assert(s =~= dec_str(w) + seq!['.'] + pad2_str(f));
        assert(dot_index(s) == dec_str(w).len());
        assert(s.take(dec_str(w).len() as int) =~= dec_str(w));
        assert(s.skip(dec_str(w).len() as int + 1) =~= pad2_str(f));
    }
}

/// The parameters that produced a run.
pub struct RunConfig {
    pub test_requests: u64,
    pub warmup_requests: u64,
    pub scenarios: u64,
}

/// One compared target: its report key and its per-scenario metrics, in
/// insertion order.
pub struct TargetResults {
    pub name: String,
    pub results: Vec<(String, MetricSet)>,
}

/// The top-level persisted record of one benchmark run.
pub struct Report {
    pub timestamp: String,
    pub target_a: TargetResults,
    pub target_b: TargetResults,
    pub summary: RunConfig,
}

/// Bundles a run's timestamp, both targets' metrics and the run
/// parameters into a report. Pure construction, no I/O.
pub fn assemble(
    timestamp: String,
    target_a: TargetResults,
    target_b: TargetResults,
    summary: RunConfig,
) -> (r: Report)
    ensures
        r.timestamp == timestamp,
        r.target_a == target_a,
        r.target_b == target_b,
        r.summary == summary,
{
    Report { timestamp, target_a, target_b, summary }
}

/// The dated path component `{prefix}-{date}.json`: two writes on the
/// same date name the same file.
pub fn dated_filename(prefix: &str, date: &str) -> (r: String)
    ensures
        r@ == prefix@ + "-"@ + date@ + ".json"@,
{
    let mut s = prefix.to_owned();
    s.append("-");
    s.append(date);
    s.append(".json");
    proof {
        assert(s@ =~= prefix@ + "-"@ + date@ + ".json"@);
    }
    s
}

/// `s` surrounded by double quotes.
pub open spec fn quoted(s: Seq<char>) -> Seq<char> {
    seq!['"'] + s + seq!['"']
}

/// A string whose quoted form is valid JSON as it stands: no quote, no
/// backslash, no control character.
pub open spec fn json_safe(s: Seq<char>) -> bool {
    forall|i: int| 0 <= i < s.len() ==> s[i] != '"' && s[i] != '\\' && s[i] as int >= 32
}

/// One metric set as a pretty-printed JSON object at nesting depth
/// three.
pub open spec fn metric_chars(m: MetricSet) -> Seq<char> {
    "{\n      \"min\": "@ + scaled3_chars(m.min as int) + ",\n      \"max\": "@ + scaled3_chars(
        m.max as int,
    ) + ",\n      \"avg\": "@ + scaled3_chars(m.avg as int) + ",\n      \"p50\": "@
        + scaled3_chars(m.p50 as int) + ",\n      \"p95\": "@ + scaled3_chars(m.p95 as int)
        + ",\n      \"p99\": "@ + scaled3_chars(m.p99 as int) + ",\n      \"avgSize\": "@ + (
    match m.avg_size {
        Some(z) => dec_str(z as int),
        None => "null"@,
    }) + ",\n      \"errors\": "@ + dec_str(m.errors as int) + ",\n      \"successRate\": "@
        + scaled2_chars(m.success_hundredths as int) + "\n    }"@
}

/// One scenario entry of a target's object.
pub open spec fn entry_chars(p: (String, MetricSet)) -> Seq<char> {
    "    "@ + quoted(p.0@) + ": "@ + metric_chars(p.1)
}

/// A target's scenario entries, joined by comma-newline.
pub open spec fn entries_chars(s: Seq<(String, MetricSet)>) -> Seq<char>
    decreases s.len(),
{
    if s.len() == 0 {
        Seq::empty()
    } else if s.len() == 1 {
        entry_chars(s[0])
    } else {
        entries_chars(s.drop_last()) + ",\n"@ + entry_chars(s.last())
    }
}

/// A target's scenario map as a pretty-printed JSON object.
pub open spec fn target_chars(t: TargetResults) -> Seq<char> {
    if t.results@.len() == 0 {
        "{}"@
    } else {
        "{\n"@ + entries_chars(t.results@) + "\n  }"@
    }
}

/// The run parameters as a pretty-printed JSON object.
pub open spec fn summary_chars(c: RunConfig) -> Seq<char> {
    "{\n    \"testRequests\": "@ + dec_str(c.test_requests as int)
        + ",\n    \"warmupRequests\": "@ + dec_str(c.warmup_requests as int)
        + ",\n    \"scenarios\": "@ + dec_str(c.scenarios as int) + "\n  }"@
}

/// The whole report as pretty-printed JSON: `timestamp`, one key per
/// target, `summary`, in that order.
pub open spec fn report_chars(r: Report) -> Seq<char> {
    "{\n  \"timestamp\": "@ + quoted(r.timestamp@) + ",\n  "@ + quoted(r.target_a.name@) + ": "@
        + target_chars(r.target_a) + ",\n  "@ + quoted(r.target_b.name@) + ": "@ + target_chars(
        r.target_b,
    ) + ",\n  \"summary\": "@ + summary_chars(r.summary) + "\n}"@
}

fn push_quoted(s: &mut String, text: &str)
    ensures
        final(s)@ == old(s)@ + quoted(text@),
{
    proof {
        reveal_strlit("\"");
    }
    s.append("\"");
    s.append(text);
    s.append("\"");
    proof {
        assert(final(s)@ =~= old(s)@ + quoted(text@));
    }
}

#[verifier::rlimit(60)]
fn push_metric(s: &mut String, m: &MetricSet)
    ensures
        final(s)@ == old(s)@ + metric_chars(*m),
{
    s.append("{\n      \"min\": ");
    push_scaled3(s, m.min);
    s.append(",\n      \"max\": ");
    push_scaled3(s, m.max);
    s.append(",\n      \"avg\": ");
    push_scaled3(s, m.avg);
    s.append(",\n      \"p50\": ");
    push_scaled3(s, m.p50);
    s.append(",\n      \"p95\": ");
    push_scaled3(s, m.p95);
    s.append(",\n      \"p99\": ");
    push_scaled3(s, m.p99);
    s.append(",\n      \"avgSize\": ");
    match m.avg_size {
        Some(z) => push_u64(s, z),
        None => s.append("null"),
    }
    s.append(",\n      \"errors\": ");
    push_u64(s, m.errors);
    s.append(",\n      \"successRate\": ");
    push_scaled2(s, m.success_hundredths);
    s.append("\n    }");
    proof {
        assert(final(s)@ =~= old(s)@ + metric_chars(*m));
    }
}

#[verifier::rlimit(60)]
fn push_entries(s: &mut String, results: &Vec<(String, MetricSet)>)
    ensures
        final(s)@ == old(s)@ + entries_chars(results@),
{
    let ghost base = s@;
    let n = results.len();
    for i in 0..n
        invariant
            n == results@.len(),
            s@ == base + entries_chars(results@.take(i as int)),
    {
        if i > 0 {
            s.append(",\n");
        }
        s.append("    ");
        push_quoted(s, results[i].0.as_str());
        s.append(": ");
        push_metric(s, &results[i].1);
        proof {
            assert(results@.take(i + 1).drop_last() =~= results@.take(i as int));
            assert(results@.take(i + 1).last() == results@[i as int]);
            assert(s@ =~= base + entries_chars(results@.take(i + 1)));
        }
    }
    proof {
        assert(results@.take(n as int) =~= results@);
    }
}

fn push_target(s: &mut String, t: &TargetResults)
    ensures
        final(s)@ == old(s)@ + target_chars(*t),
{
    if t.results.len() == 0 {
        s.append("{}");
    } else {
        s.append("{\n");
        push_entries(s, &t.results);
        s.append("\n  }");
    }
    proof {
        assert(final(s)@ =~= old(s)@ + target_chars(*t));
    }
}

fn push_summary(s: &mut String, c: &RunConfig)
    ensures
        final(s)@ == old(s)@ + summary_chars(*c),
{
    s.append("{\n    \"testRequests\": ");
    push_u64(s, c.test_requests);
    s.append(",\n    \"warmupRequests\": ");
    push_u64(s, c.warmup_requests);
    s.append(",\n    \"scenarios\": ");
    push_u64(s, c.scenarios);
    s.append("\n  }");
    proof {
        assert(final(s)@ =~= old(s)@ + summary_chars(*c));
    }
}

/// Serializes a report to its canonical pretty-printed JSON text,
/// exactly `report_chars`. The caller appends the trailing newline when
/// persisting.
pub fn report_to_json(r: &Report) -> (out: String)
    ensures
        out@ == report_chars(*r),
{
    let mut s = String::new();
    s.append("{\n  \"timestamp\": ");
    push_quoted(&mut s, r.timestamp.as_str());
    s.append(",\n  ");
    push_quoted(&mut s, r.target_a.name.as_str());
    s.append(": ");
    push_target(&mut s, &r.target_a);
    s.append(",\n  ");
    push_quoted(&mut s, r.target_b.name.as_str());
    s.append(": ");
    push_target(&mut s, &r.target_b);
    s.append(",\n  \"summary\": ");
    push_summary(&mut s, &r.summary);
    s.append("\n}");
    proof {
        assert(s@ =~= report_chars(*r));
    }
    s
}

} // verus!
