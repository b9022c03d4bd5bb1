//! Sample collector: the decision core of a probe loop that issues
//! `warmup` discarded requests and then `requests` measured requests
//! against one target.
//!
//! The caller performs each probe (an HTTP request, a timed build, ...)
//! and hands the outcome back; this state machine decides what is
//! recorded. Warmup outcomes are discarded; a measured success records
//! its elapsed time and response size; a measured failure is counted and
//! tolerated. Only a run in which no measured probe succeeded is a hard
//! error.

use vstd::prelude::*;

verus! {

use crate::stats::MetricSet;
use crate::stats::StatsError;
use crate::stats::average_of;
use crate::stats::reduce;
use crate::stats::reduced_from;
use crate::stats::sum_of;

/// What one probe came back with: a success with its elapsed time and
/// response body size (in the caller's integer units), or any failure
/// (transport error, non-success status, unreadable body).
pub enum ProbeOutcome {
    Success { elapsed: u64, size: u64 },
    Failure,
}

/// State of one warmup-then-measure collection run.
pub struct Collector {
    /// Warmup probes still owed; their outcomes are discarded.
    pub warmup_left: u64,
    /// Measured probes still owed.
    pub measure_left: u64,
    /// Total number of measured probes this run was created with.
    pub requests: u64,
    /// Elapsed times of the successful measured probes, in order.
    pub times: Vec<u64>,
    /// Response sizes of the successful measured probes, in order.
    pub sizes: Vec<u64>,
    /// Measured probes that failed.
    pub errors: u64,
}

impl Collector {
    /// Internal consistency: times and sizes run in parallel, and every
    /// measured probe is either recorded, failed, or still owed.
    pub open spec fn wf(&self) -> bool {
        &&& self.times@.len() == self.sizes@.len()
        &&& self.errors + self.times@.len() + self.measure_left == self.requests
    }

    /// All owed probes have been recorded.
    pub open spec fn done(&self) -> bool {
        self.warmup_left == 0 && self.measure_left == 0
    }

    /// A fresh run owing `warmup` discarded probes and `requests`
    /// measured ones.
    pub fn new(warmup: u64, requests: u64) -> (r: Collector)
        ensures
            r.wf(),
            r.warmup_left == warmup,
            r.measure_left == requests,
            r.requests == requests,
            r.times@.len() == 0,
            r.sizes@.len() == 0,
            r.errors == 0,
    {
        Collector {
            warmup_left: warmup,
            measure_left: requests,
            requests,
            times: Vec::new(),
            sizes: Vec::new(),
            errors: 0,
        }
    }

    /// Whether the run still owes a probe.
    pub fn is_done(&self) -> (r: bool)
        ensures
            r == self.done(),
    {
        self.warmup_left == 0 && self.measure_left == 0
    }

    /// Records the outcome of one probe. During warmup the outcome is
    /// discarded; afterwards a success appends its elapsed time and size,
    /// and a failure only increments the error count.
    pub fn record(&mut self, outcome: ProbeOutcome)
        requires
            old(self).wf(),
            !old(self).done(),
        ensures
            final(self).wf(),
            final(self).requests == old(self).requests,
            old(self).warmup_left > 0 ==> {
                &&& final(self).warmup_left == old(self).warmup_left - 1
                &&& final(self).measure_left == old(self).measure_left
                &&& final(self).times@ == old(self).times@
                &&& final(self).sizes@ == old(self).sizes@
                &&& final(self).errors == old(self).errors
            },
            old(self).warmup_left == 0 ==> {
                &&& final(self).warmup_left == 0
                &&& final(self).measure_left == old(self).measure_left - 1
                &&& match outcome {
                    ProbeOutcome::Success { elapsed, size } => {
                        &&& final(self).times@ == old(self).times@.push(elapsed)
                        &&& final(self).sizes@ == old(self).sizes@.push(size)
                        &&& final(self).errors == old(self).errors
                    },
                    ProbeOutcome::Failure => {
                        &&& final(self).times@ == old(self).times@
                        &&& final(self).sizes@ == old(self).sizes@
                        &&& final(self).errors == old(self).errors + 1
                    },
                }
            },
    {
        if self.warmup_left > 0 {
            self.warmup_left = self.warmup_left - 1;
        } else {
            match outcome {
                ProbeOutcome::Success { elapsed, size } => {
                    self.times.push(elapsed);
                    self.sizes.push(size);
                }
                ProbeOutcome::Failure => {
                    self.errors = self.errors + 1;
                }
            }
            self.measure_left = self.measure_left - 1;
        }
    }

    /// Reduces a finished run to its metric set. Fails only when zero
    /// measured probes succeeded (which covers a run created with zero
    /// requests); partial failure is reflected in `errors` and the
    /// success rate, never retried. The success rate is
    /// `100 * (requests - errors) / requests`, in hundredths of a percent
    /// truncated.
    pub fn finish(&self) -> (r: Result<MetricSet, StatsError>)
        requires
            self.wf(),
            self.done(),
        ensures
            match r {
                Ok(m) => {
                    &&& self.times@.len() > 0
                    &&& reduced_from(m, self.times@)
                    &&& (m.avg_size matches Some(z)
                        && z == sum_of(self.sizes@) / self.sizes@.len() as int)
                    &&& m.errors == self.errors
                    &&& m.success_hundredths == 10000 * (self.requests - self.errors)
                        / self.requests as int
                    &&& m.success_hundredths <= 10000
                },
                Err(e) => {
                    &&& self.times@.len() == 0
                    &&& e == StatsError::EmptySamples
                    &&& self.errors == self.requests
                },
            },
    {
        match reduce(&self.times) {
            Err(e) => Err(e),
            Ok(m) => {
                let avg_size = average_of(&self.sizes);
                let ok = self.requests - self.errors;
                proof {
                    vstd::arithmetic::div_mod::lemma_div_is_ordered(
                        10000 * (ok as int),
                        10000 * (self.requests as int),
                        self.requests as int,
                    );
                    vstd::arithmetic::div_mod::lemma_div_by_multiple(
                        10000,
                        self.requests as int,
                    );
                    vstd::arithmetic::div_mod::lemma_div_pos_is_pos(
                        10000 * (ok as int),
                        self.requests as int,
                    );
                }
                let success_hundredths = ((10000u128 * ok as u128)
                    / self.requests as u128) as u64;
                Ok(MetricSet { avg_size: Some(avg_size), errors: self.errors, success_hundredths, ..m })
            }
        }
    }
}

} // verus!
