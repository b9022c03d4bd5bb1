//! Comparator: given two named metric sets of the same scenario, computes
//! the signed relative difference of their primary values and declares a
//! winner. Strictly lower is better; a tie is not a win, it goes to the
//! second argument. The comparator is direction-agnostic: for metrics where
//! higher is better the caller inverts the reading, not this module.

use vstd::prelude::*;

verus! {

use crate::stats::MetricSet;
use crate::stats::sum_of;

/// A signed percentage as an exact rational: the value is
/// `(if neg { -1 } else { 1 }) * num / den` percent. Presentation
/// (rounding to decimals, `+`-prefixing) is layered outside this library.
pub struct PercentDiff {
    pub neg: bool,
    pub num: u128,
    pub den: u128,
}

/// `d` is exactly `(a - b) / b * 100` percent.
pub open spec fn diff_wf(d: PercentDiff, a: int, b: int) -> bool {
    &&& d.den == b
    &&& d.num == 100 * (if a >= b { a - b } else { b - a })
    &&& d.neg == (a < b)
}

/// `d` is exactly `(b - a) / b * 100` percent: how much lower (positive)
/// or higher (negative) `a` is, relative to `b`.
pub open spec fn gain_wf(d: PercentDiff, a: int, b: int) -> bool {
    &&& d.den == b
    &&& d.num == 100 * (if b >= a { b - a } else { a - b })
    &&& d.neg == (a > b)
}

/// The signed relative difference `(a - b) / b * 100`, exact.
pub fn percent_diff(a: u64, b: u64) -> (r: PercentDiff)
    requires
        b > 0,
    ensures
        diff_wf(r, a as int, b as int),
{
    if a >= b {
        PercentDiff { neg: false, num: 100 * ((a - b) as u128), den: b as u128 }
    } else {
        PercentDiff { neg: true, num: 100 * ((b - a) as u128), den: b as u128 }
    }
}

/// The signed relative gain `(b - a) / b * 100`, exact.
pub fn percent_gain(a: u64, b: u64) -> (r: PercentDiff)
    requires
        b > 0,
    ensures
        gain_wf(r, a as int, b as int),
{
    if b >= a {
        PercentDiff { neg: false, num: 100 * ((b - a) as u128), den: b as u128 }
    } else {
        PercentDiff { neg: true, num: 100 * ((a - b) as u128), den: b as u128 }
    }
}

/// One row of a pairwise comparison: the two primary values, their exact
/// signed difference, and the name of the winner.
pub struct Comparison {
    pub a_avg: u64,
    pub b_avg: u64,
    pub difference: PercentDiff,
    pub winner: String,
}

/// Compares two named metric sets of the same scenario by their average.
/// The difference is `(a.avg - b.avg) / b.avg * 100`, signed and exact;
/// the winner is the side with the strictly lower average, so a tie goes
/// to `name_b`.
pub fn compare(name_a: &str, a: &MetricSet, name_b: &str, b: &MetricSet) -> (r: Comparison)
    requires
        b.avg > 0,
    ensures
        r.a_avg == a.avg,
        r.b_avg == b.avg,
        diff_wf(r.difference, a.avg as int, b.avg as int),
        r.winner@ == if a.avg < b.avg { name_a@ } else { name_b@ },
{
    let winner = if a.avg < b.avg {
        String::from_str(name_a)
    } else {
        String::from_str(name_b)
    };
    Comparison { a_avg: a.avg, b_avg: b.avg, difference: percent_diff(a.avg, b.avg), winner }
}

/// First components of a sequence of pairs.
pub open spec fn firsts(s: Seq<(u64, u64)>) -> Seq<u64> {
    s.map_values(|p: (u64, u64)| p.0)
}

/// Second components of a sequence of pairs.
pub open spec fn seconds(s: Seq<(u64, u64)>) -> Seq<u64> {
    s.map_values(|p: (u64, u64)| p.1)
}

/// Cross-scenario summary: the truncating average of each side's
/// per-scenario averages, and the relative gain of side `a` over side `b`
/// (`(b_avg - a_avg) / b_avg * 100`; positive means `a` was lower).
pub struct RunSummary {
    pub a_avg: u64,
    pub b_avg: u64,
    pub improvement: Option<PercentDiff>,
}

/// Looks a scenario's metrics up by name in an association list, first
/// match wins.
pub open spec fn spec_lookup(s: Seq<(String, MetricSet)>, name: Seq<char>) -> Option<MetricSet>
    decreases s.len(),
{
    if s.len() == 0 {
        None
    } else if s[0].0@ == name {
        Some(s[0].1)
    } else {
        spec_lookup(s.drop_first(), name)
    }
}

/// Finds the metrics recorded for a scenario name, first match wins.
pub fn lookup(results: &Vec<(String, MetricSet)>, name: &String) -> (r: Option<MetricSet>)
    ensures
        r == spec_lookup(results@, name@),
{
    let n = results.len();
    proof {
        assert(results@.skip(0) =~= results@);
    }
    for i in 0..n
        invariant
            n == results@.len(),
            spec_lookup(results@, name@) == spec_lookup(results@.skip(i as int), name@),
    {
        proof {
            assert(results@.skip(i as int)[0] == results@[i as int]);
            assert(results@.skip(i as int).drop_first() =~= results@.skip(i + 1));
        }
        if results[i].0.eq(name) {
            return Some(results[i].1);
        }
    }
    proof {
        assert(results@.skip(n as int) =~= Seq::<(String, MetricSet)>::empty());
    }
    None
}

/// Summarizes the scenarios measured on both sides: the truncating average
/// of each side's averages, and the exact relative gain of side `a`.
/// Yields nothing when no scenario was measured on both sides; the gain is
/// omitted when side `b`'s summary average is zero, since the relative
/// formula divides by it.
pub fn summarize(pairs: &Vec<(u64, u64)>) -> (r: Option<RunSummary>)
    ensures
        match r {
            None => pairs@.len() == 0,
            Some(s) => {
                &&& pairs@.len() > 0
                &&& s.a_avg == sum_of(firsts(pairs@)) / pairs@.len() as int
                &&& s.b_avg == sum_of(seconds(pairs@)) / pairs@.len() as int
                &&& (s.b_avg > 0 ==> (s.improvement matches Some(d)
                    && gain_wf(d, s.a_avg as int, s.b_avg as int)))
                &&& (s.b_avg == 0 ==> s.improvement is None)
            },
        },
{
    if pairs.len() == 0 {
        return None;
    }
    let n = pairs.len();
    let mut va: Vec<u64> = Vec::new();
    let mut vb: Vec<u64> = Vec::new();
    for i in 0..n
        invariant
            n == pairs@.len(),
            va@ =~= firsts(pairs@.take(i as int)),
            vb@ =~= seconds(pairs@.take(i as int)),
    {
        va.push(pairs[i].0);
        vb.push(pairs[i].1);
        proof {
            assert(firsts(pairs@.take(i + 1)) =~= firsts(pairs@.take(i as int)).push(pairs@[i as int].0));
            assert(seconds(pairs@.take(i + 1)) =~= seconds(pairs@.take(i as int)).push(pairs@[i as int].1));
        }
    }
    proof {
        assert(pairs@.take(n as int) =~= pairs@);
    }
    let a_avg = crate::stats::average_of(&va);
    let b_avg = crate::stats::average_of(&vb);
    let improvement = if b_avg > 0 {
        Some(percent_gain(a_avg, b_avg))
    } else {
        None
    };
    Some(RunSummary { a_avg, b_avg, improvement })
}

} // verus!
