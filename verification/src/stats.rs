//! Statistics engine: reduces a batch of numeric samples to aggregate
//! metrics (min / max / average / percentiles) with nearest-rank-by-truncation
//! percentile semantics.
//!
//! Samples are unit-agnostic unsigned integers; callers use integer
//! micro-units (e.g. microseconds) where the measured quantity is fractional.

use vstd::prelude::*;

verus! {

use vstd::seq_lib::lemma_multiset_commutative;
use vstd::seq_lib::lemma_sorted_unique;
use vstd::relations::sorted_by;
use vstd::relations::total_ordering;

/// A sequence is in ascending order.
pub open spec fn sorted_ascending(s: Seq<u64>) -> bool {
    forall|i: int, j: int| 0 <= i <= j < s.len() ==> s[i] <= s[j]
}

/// The ascending reordering of `s` (unique, since `<=` on `u64` is total).
pub open spec fn sort_of(s: Seq<u64>) -> Seq<u64> {
    s.sort_by(|a: u64, b: u64| a <= b)
}

/// Sum of a sequence of samples.
pub open spec fn sum_of(s: Seq<u64>) -> int
    decreases s.len(),
{
    if s.len() == 0 {
        0
    } else {
        sum_of(s.drop_last()) + s.last()
    }
}

/// Index used for the percentile at `p`/100 over `n` samples:
/// nearest rank by linear index truncation, `floor(p * (n - 1) / 100)`.
pub open spec fn rank_index(p: int, n: int) -> int {
    p * (n - 1) / 100
}

/// The percentile at `p`/100 of the samples `s`: the element of the
/// ascending reordering of `s` at `rank_index`.
pub open spec fn rank_of(s: Seq<u64>, p: int) -> u64 {
    sort_of(s)[rank_index(p, s.len() as int)]
}

/// Why the statistics engine refused its input.
#[derive(Debug)]
pub enum StatsError {
    /// The sample list was empty: an empty input is an error, never a
    /// zero-valued metric set.
    EmptySamples,
}

/// Aggregate statistics derived from one batch of samples. Immutable after
/// creation. `min`, `max`, `avg` and the percentiles are in the unit of the
/// samples they were reduced from; `avg` is the truncating integer average.
///
/// `success_hundredths` is the success rate in hundredths of a percent
/// (0 ..= 10_000); `avg_size` is the truncating integer average response
/// size in bytes, when sizes were collected alongside the samples.
#[derive(Clone, Copy)]
pub struct MetricSet {
    pub min: u64,
    pub max: u64,
    pub avg: u64,
    pub p50: u64,
    pub p95: u64,
    pub p99: u64,
    pub avg_size: Option<u64>,
    pub errors: u64,
    pub success_hundredths: u64,
}

/// What `reduce` promises of the metric set it returns for the non-empty
/// sample list `s`.
pub open spec fn reduced_from(m: MetricSet, s: Seq<u64>) -> bool {
    &&& m.min == sort_of(s)[0]
    &&& m.max == sort_of(s)[s.len() - 1]
    &&& m.avg == sum_of(s) / s.len() as int
    &&& m.p50 == rank_of(s, 50)
    &&& m.p95 == rank_of(s, 95)
    &&& m.p99 == rank_of(s, 99)
    &&& m.min <= m.p50 <= m.p95 <= m.p99 <= m.max
}

proof fn lemma_sum_take_step(s: Seq<u64>, i: int)
    requires
        0 <= i < s.len(),
    ensures
        sum_of(s.take(i + 1)) == sum_of(s.take(i)) + s[i],
{
    assert(s.take(i + 1).drop_last() =~= s.take(i));
    assert(s.take(i + 1).last() == s[i]);
}

/// The sum of samples that are each at most `m` is at most `len * m`.
proof fn lemma_sum_bound(s: Seq<u64>, m: u64)
    requires
        forall|i: int| 0 <= i < s.len() ==> s[i] <= m,
    ensures
        0 <= sum_of(s) <= s.len() * m,
    decreases s.len(),
{
    if s.len() == 0 {
    } else {
        lemma_sum_bound(s.drop_last(), m);
        assert((s.len() - 1) * m + m == s.len() * m) by (nonlinear_arith);
    }
}

/// `<=` on `u64` is a total order.
proof fn lemma_le_total_ordering()
    ensures
        total_ordering(|a: u64, b: u64| a <= b),
{
    let leq = |a: u64, b: u64| a <= b;
    assert forall|x: u64, y: u64| #[trigger] leq(x, y) || #[trigger] leq(y, x) by {}
}

/// Sorts a batch of samples ascending. The result is exactly the unique
/// ascending reordering `sort_of` of the input.
pub fn sort_samples(v: &Vec<u64>) -> (r: Vec<u64>)
    ensures
        r@ == sort_of(v@),
        sorted_ascending(r@),
        r@.to_multiset() == v@.to_multiset(),
        r@.len() == v@.len(),
{
    broadcast use vstd::seq_lib::group_to_multiset_ensures;

    let n = v.len();
    let mut out: Vec<u64> = Vec::new();
    for idx in 0..n
        invariant
            n == v@.len(),
            out@.len() == idx,
            sorted_ascending(out@),
            out@.to_multiset() == v@.take(idx as int).to_multiset(),
    {
        let x = v[idx];
        let mut j: usize = 0;
        while j < out.len() && out[j] <= x
            invariant
                j <= out@.len(),
                forall|k: int| 0 <= k < j ==> out@[k] <= x,
            decreases out@.len() - j,
        {
            j += 1;
        }
        let ghost old_out = out@;
        out.insert(j, x);
        proof {
            broadcast use vstd::multiset::group_multiset_axioms;

            assert(out@.to_multiset() =~= old_out.to_multiset().insert(x)) by {
                old_out.take(j as int).to_multiset_ensures();
                assert(out@ =~= old_out.take(j as int).push(x) + old_out.skip(j as int));
                lemma_multiset_commutative(old_out.take(j as int).push(x), old_out.skip(j as int));
                lemma_multiset_commutative(old_out.take(j as int), old_out.skip(j as int));
                assert(old_out.take(j as int) + old_out.skip(j as int) =~= old_out);
            }
            assert(out@.to_multiset() =~= v@.take(idx + 1).to_multiset()) by {
                v@.take(idx as int).to_multiset_ensures();
                assert(v@.take(idx + 1) =~= v@.take(idx as int).push(x));
            }
            assert forall|a: int, b: int| 0 <= a <= b < out@.len() implies out@[a] <= out@[b] by {
                assert(forall|k: int| 0 <= k < old_out.len() ==> old_out[k] == out@[if k < j { k } else { k + 1 }]);
            }
        }
    }
    proof {
        let leq = |a: u64, b: u64| a <= b;
        assert(v@.take(n as int) =~= v@);
        v@.lemma_sort_by_ensures(leq);
        lemma_le_total_ordering();
        assert(sorted_by(out@, leq));
        lemma_sorted_unique(out@, sort_of(v@), leq);
        assert(out@ =~= sort_of(v@));
    }
    out
}

/// Truncating integer average of a non-empty batch: `sum / count`.
/// Never overflows: the sum is accumulated in 128 bits and the average of
/// `u64` values fits a `u64`.
pub fn average_of(v: &Vec<u64>) -> (r: u64)
    requires
        v@.len() > 0,
    ensures
        r == sum_of(v@) / v@.len() as int,
{
    let n = v.len();
    let mut acc: u128 = 0;
    for i in 0..n
        invariant
            n == v@.len(),
            acc == sum_of(v@.take(i as int)),
            acc <= i * u64::MAX,
    {
        proof {
            lemma_sum_take_step(v@, i as int);
            assert(i * u64::MAX + u64::MAX == (i + 1) * u64::MAX) by (nonlinear_arith);
            assert((i + 1) * u64::MAX <= u128::MAX) by (nonlinear_arith)
                requires 0 <= i + 1 <= usize::MAX;
        }
        acc = acc + v[i] as u128;
    }
    proof {
        assert(v@.take(n as int) =~= v@);
        lemma_sum_bound(v@, u64::MAX);
        vstd::arithmetic::div_mod::lemma_div_is_ordered(
            sum_of(v@),
            v@.len() * u64::MAX as int,
            v@.len() as int,
        );
        vstd::arithmetic::div_mod::lemma_div_by_multiple(u64::MAX as int, v@.len() as int);
        vstd::arithmetic::div_mod::lemma_div_pos_is_pos(sum_of(v@), v@.len() as int);
    }
    (acc / n as u128) as u64
}

/// The rank index for percentile `p` never passes the last element, and is
/// monotone in `p`.
proof fn lemma_rank_index_bounds(p1: int, p2: int, n: int)
    requires
        0 <= p1 <= p2 <= 100,
        1 <= n,
    ensures
        0 <= rank_index(p1, n) <= rank_index(p2, n) <= n - 1,
{
    vstd::arithmetic::mul::lemma_mul_inequality(p1, p2, n - 1);
    vstd::arithmetic::mul::lemma_mul_inequality(p2, 100, n - 1);
    vstd::arithmetic::div_mod::lemma_div_is_ordered(p1 * (n - 1), p2 * (n - 1), 100);
    vstd::arithmetic::div_mod::lemma_div_is_ordered(p2 * (n - 1), 100 * (n - 1), 100);
    vstd::arithmetic::div_mod::lemma_div_by_multiple(n - 1, 100);
    vstd::arithmetic::div_mod::lemma_div_pos_is_pos(p1 * (n - 1), 100);
    vstd::arithmetic::mul::lemma_mul_nonnegative(p1, n - 1);
}

/// The percentile at `p`/100 of a sorted non-empty batch: the element at
/// index `floor(p * (count - 1) / 100)`, nearest rank by truncation, no
/// interpolation.
pub fn percentile(sorted: &Vec<u64>, p: u64) -> (r: u64)
    requires
        sorted@.len() > 0,
        p <= 100,
    ensures
        r == sorted@[rank_index(p as int, sorted@.len() as int)],
{
    proof {
        lemma_rank_index_bounds(p as int, p as int, sorted@.len() as int);
    }
    let idx = ((p as u128) * ((sorted.len() - 1) as u128) / 100) as usize;
    sorted[idx]
}

/// Reduces a non-empty batch of samples to its aggregate metrics:
/// `min`/`max` are the least and greatest sample, `avg` the truncating
/// integer average, and the percentiles follow the nearest-rank rule of
/// `rank_of`. The returned set always satisfies
/// `min <= p50 <= p95 <= p99 <= max`.
///
/// An empty batch is refused with `StatsError::EmptySamples`; no
/// default-valued metric set is ever returned. Error and size fields are
/// the neutral defaults (`errors == 0`, 100 % success, no sizes); a
/// collector that tracked failures fills them in.
pub fn reduce(samples: &Vec<u64>) -> (r: Result<MetricSet, StatsError>)
    ensures
        match r {
            Ok(m) => {
                &&& samples@.len() > 0
                &&& reduced_from(m, samples@)
                &&& m.avg_size == Option::<u64>::None
                &&& m.errors == 0
                &&& m.success_hundredths == 10000
            },
            Err(e) => samples@.len() == 0 && e == StatsError::EmptySamples,
        },
{
    if samples.len() == 0 {
        return Err(StatsError::EmptySamples);
    }
    let sorted = sort_samples(samples);
    let avg = average_of(samples);
    proof {
        lemma_rank_index_bounds(50, 95, samples@.len() as int);
        lemma_rank_index_bounds(95, 99, samples@.len() as int);
        lemma_rank_index_bounds(99, 100, samples@.len() as int);
    }
    let m = MetricSet {
        min: sorted[0],
        max: sorted[sorted.len() - 1],
        avg,
        p50: percentile(&sorted, 50),
        p95: percentile(&sorted, 95),
        p99: percentile(&sorted, 99),
        avg_size: None,
        errors: 0,
        success_hundredths: 10000,
    };
    Ok(m)
}

} // verus!
