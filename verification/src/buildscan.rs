//! Build-output scanning: counts warning and error markers in a build
//! tool's combined output, and renders bundle sizes.
//!
//! The counting is a crude, documented best-effort substring heuristic
//! (a word like "ErrorBoundary" in legitimate output counts as a hit);
//! it is preserved exactly, not tightened. Occurrences are counted left
//! to right without overlap, separately per marker; recognized
//! deprecation markers are subtracted from the warning total, saturating
//! at zero.
//!
//! Callers hand the output in as its sequence of characters.

use vstd::prelude::*;

verus! {

use crate::numfmt::fixed2_str;
use crate::numfmt::push_fixed2;

/// Occurrences of `pat` in `text`, counted left to right without overlap:
/// a hit consumes the whole pattern. An empty pattern has no occurrences.
pub open spec fn match_count(text: Seq<char>, pat: Seq<char>) -> int
    decreases text.len(),
{
    if pat.len() == 0 || text.len() < pat.len() {
        0
    } else if text.take(pat.len() as int) == pat {
        1 + match_count(text.skip(pat.len() as int), pat)
    } else {
        match_count(text.skip(1), pat)
    }
}

/// Each counted occurrence consumes a full pattern, so the count times the
/// pattern length never exceeds the text length.
pub proof fn lemma_match_count_bound(text: Seq<char>, pat: Seq<char>)
    ensures
        0 <= match_count(text, pat),
        pat.len() * match_count(text, pat) <= text.len(),
    decreases text.len(),
{
    if pat.len() == 0 || text.len() < pat.len() {
        assert(pat.len() * match_count(text, pat) == 0) by (nonlinear_arith)
            requires
                match_count(text, pat) == 0,
        ;
    } else if text.take(pat.len() as int) == pat {
        lemma_match_count_bound(text.skip(pat.len() as int), pat);
        assert(pat.len() as int * (1 + match_count(text.skip(pat.len() as int), pat))
            == pat.len() as int + pat.len() as int * match_count(
            text.skip(pat.len() as int),
            pat,
        )) by (nonlinear_arith);
    } else {
        lemma_match_count_bound(text.skip(1), pat);
    }
}

fn matches_at(text: &Vec<char>, pat: &Vec<char>, i: usize) -> (r: bool)
    requires
        pat@.len() >= 1,
        i + pat@.len() <= text@.len(),
    ensures
        r == (text@.skip(i as int).take(pat@.len() as int) == pat@),
{
    let n = text.len();
    let mut j: usize = 0;
    while j < pat.len()
        invariant
            n == text@.len(),
            j <= pat@.len(),
            pat@.len() >= 1,
            i + pat@.len() <= text@.len(),
            forall|k: int| 0 <= k < j ==> text@[i + k] == pat@[k],
        decreases pat@.len() - j,
    {
        if text[i + j] != pat[j] {
            proof {
                assert(text@.skip(i as int).take(pat@.len() as int)[j as int] == text@[i + j]);
            }
            return false;
        }
        j = j + 1;
    }
    proof {
        assert(text@.skip(i as int).take(pat@.len() as int) =~= pat@);
    }
    true
}

/// Counts the left-to-right non-overlapping occurrences of `pat` in
/// `text`, exactly `match_count`.
pub fn count_matches(text: &Vec<char>, pat: &Vec<char>) -> (r: usize)
    requires
        pat@.len() >= 1,
    ensures
        r == match_count(text@, pat@),
{
    let mut i: usize = 0;
    let mut count: usize = 0;
    proof {
        assert(text@.skip(0) =~= text@);
    }
    while i < text.len() && text.len() - i >= pat.len()
        invariant
            pat@.len() >= 1,
            i <= text@.len(),
            count <= i,
            count + match_count(text@.skip(i as int), pat@) == match_count(text@, pat@),
        decreases text@.len() - i,
    {
        if matches_at(text, pat, i) {
            proof {
                assert(text@.skip(i as int).skip(pat@.len() as int) =~= text@.skip(
                    i + pat@.len(),
                ));
            }
            count = count + 1;
            i = i + pat.len();
        } else {
            proof {
                assert(text@.skip(i as int).skip(1) =~= text@.skip(i + 1));
            }
            i = i + 1;
        }
    }
    count
}

pub open spec fn lower_warning() -> Seq<char> {
    seq!['w', 'a', 'r', 'n', 'i', 'n', 'g']
}

pub open spec fn title_warning() -> Seq<char> {
    seq!['W', 'a', 'r', 'n', 'i', 'n', 'g']
}

pub open spec fn upper_warning() -> Seq<char> {
    seq!['W', 'A', 'R', 'N', 'I', 'N', 'G']
}

pub open spec fn deprecation_marker() -> Seq<char> {
    seq!['D', 'e', 'p', 'r', 'e', 'c', 'a', 't', 'i', 'o', 'n', 'W', 'a', 'r', 'n', 'i', 'n', 'g']
}

pub open spec fn dep_code_marker() -> Seq<char> {
    seq!['[', 'D', 'E', 'P']
}

pub open spec fn lower_error() -> Seq<char> {
    seq!['e', 'r', 'r', 'o', 'r']
}

pub open spec fn title_error() -> Seq<char> {
    seq!['E', 'r', 'r', 'o', 'r']
}

pub open spec fn upper_error() -> Seq<char> {
    seq!['E', 'R', 'R', 'O', 'R']
}

/// Warning hits in a build output: occurrences of the three casings of the
/// warning marker, minus the recognized deprecation markers, saturating at
/// zero.
pub open spec fn warning_count(text: Seq<char>) -> int {
    let raw = match_count(text, lower_warning()) + match_count(text, title_warning())
        + match_count(text, upper_warning());
    let dep = match_count(text, deprecation_marker()) + match_count(text, dep_code_marker());
    if raw >= dep {
        raw - dep
    } else {
        0
    }
}

/// Error hits in a build output: occurrences of the three casings of the
/// error marker.
pub open spec fn error_count(text: Seq<char>) -> int {
    match_count(text, lower_error()) + match_count(text, title_error())
        + match_count(text, upper_error())
}

/// Counts warning markers in a build output, exactly `warning_count`.
pub fn count_warnings(text: &Vec<char>) -> (r: usize)
    ensures
        r == warning_count(text@),
{
    let p1 = vec!['w', 'a', 'r', 'n', 'i', 'n', 'g'];
    let p2 = vec!['W', 'a', 'r', 'n', 'i', 'n', 'g'];
    let p3 = vec!['W', 'A', 'R', 'N', 'I', 'N', 'G'];
    let d1 = vec![
        'D', 'e', 'p', 'r', 'e', 'c', 'a', 't', 'i', 'o', 'n', 'W', 'a', 'r', 'n', 'i', 'n', 'g',
    ];
    let d2 = vec!['[', 'D', 'E', 'P'];
    proof {
        assert(p1@ =~= lower_warning());
        assert(p2@ =~= title_warning());
        assert(p3@ =~= upper_warning());
        assert(d1@ =~= deprecation_marker());
        assert(d2@ =~= dep_code_marker());
        lemma_match_count_bound(text@, lower_warning());
        lemma_match_count_bound(text@, title_warning());
        lemma_match_count_bound(text@, upper_warning());
        lemma_match_count_bound(text@, deprecation_marker());
        lemma_match_count_bound(text@, dep_code_marker());
    }
    let n = text.len();
    let c1 = count_matches(text, &p1);
    let c2 = count_matches(text, &p2);
    let c3 = count_matches(text, &p3);
    let cd1 = count_matches(text, &d1);
    let cd2 = count_matches(text, &d2);
    proof {
        assert(lower_warning().len() == 7);
        assert(title_warning().len() == 7);
        assert(upper_warning().len() == 7);
        assert(deprecation_marker().len() == 18);
        assert(dep_code_marker().len() == 4);
        assert(c1 as int + c2 as int + c3 as int <= n as int);
        assert(cd1 as int + cd2 as int <= n as int);
    }
    let raw = c1 + c2 + c3;
    let dep = cd1 + cd2;
    if raw >= dep {
        raw - dep
    } else {
        0
    }
}

/// Counts error markers in a build output, exactly `error_count`.
pub fn count_errors(text: &Vec<char>) -> (r: usize)
    ensures
        r == error_count(text@),
{
    let p1 = vec!['e', 'r', 'r', 'o', 'r'];
    let p2 = vec!['E', 'r', 'r', 'o', 'r'];
    let p3 = vec!['E', 'R', 'R', 'O', 'R'];
    proof {
        assert(p1@ =~= lower_error());
        assert(p2@ =~= title_error());
        assert(p3@ =~= upper_error());
        lemma_match_count_bound(text@, lower_error());
        lemma_match_count_bound(text@, title_error());
        lemma_match_count_bound(text@, upper_error());
    }
    let n = text.len();
    let c1 = count_matches(text, &p1);
    let c2 = count_matches(text, &p2);
    let c3 = count_matches(text, &p3);
    proof {
        assert(lower_error().len() == 5);
        assert(title_error().len() == 5);
        assert(upper_error().len() == 5);
        assert(c1 as int + c2 as int + c3 as int <= n as int);
    }
    c1 + c2 + c3
}

/// A byte total rendered in kibibytes with two decimals, rounded to the
/// nearest hundredth (ties away from zero): `bytes * 100 / 1024`, which
/// reduces to `(bytes * 25 + 128) / 256`.
pub open spec fn kb_hundredths(bytes: int) -> int {
    (bytes * 25 + 128) / 256
}

/// The rendered bundle size: the kibibyte count with two decimals and the
/// unit suffix.
pub open spec fn kb_chars(bytes: int) -> Seq<char> {
    fixed2_str(kb_hundredths(bytes)) + seq![' ', 'k', 'B']
}

/// Renders a byte total in kibibytes, exactly `kb_chars`.
pub fn format_kb(bytes: u64) -> (r: String)
    ensures
        r@ == kb_chars(bytes as int),
{
    proof {
        vstd::arithmetic::div_mod::lemma_div_is_ordered(
            bytes as int * 25 + 128,
            256 * (u64::MAX as int),
            256,
        );
        vstd::arithmetic::div_mod::lemma_div_by_multiple(u64::MAX as int, 256);
        vstd::arithmetic::div_mod::lemma_div_pos_is_pos(bytes as int * 25 + 128, 256);
    }
    let h = (((bytes as u128) * 25 + 128) / 256) as u64;
    let mut s = String::new();
    push_fixed2(&mut s, h);
    proof {
        reveal_strlit(" kB");
    }
    s.append(" kB");
    proof {
        assert(s@ =~= kb_chars(bytes as int));
    }
    s
}

/// The rendered size of a scanned bundle, or nothing when no matching
/// file contributed a byte.
pub fn bundle_size_string(total: u64) -> (r: Option<String>)
    ensures
        match r {
            Some(s) => total > 0 && s@ == kb_chars(total as int),
            None => total == 0,
        },
{
    if total > 0 {
        Some(format_kb(total))
    } else {
        None
    }
}

/// One target's build outcome: whether the build succeeded, how long it
/// took (microseconds), the rendered bundle size and file count of a
/// successful build's bundle scan, and the marker counts from the build
/// output.
pub struct BuildResult {
    pub success: bool,
    pub duration_micros: u64,
    pub bundle_size: Option<String>,
    pub chunk_count: Option<u64>,
    pub warnings: usize,
    pub errors: usize,
}

/// Assembles a build result from the build's exit status, duration, its
/// combined output, and — when a bundle directory was scanned — the
/// scan's total byte size and file count.
pub fn analyze_build(
    success: bool,
    duration_micros: u64,
    output: &Vec<char>,
    bundle: Option<(u64, u64)>,
) -> (r: BuildResult)
    ensures
        r.success == success,
        r.duration_micros == duration_micros,
        r.warnings == warning_count(output@),
        r.errors == error_count(output@),
        match bundle {
            None => r.bundle_size is None && r.chunk_count is None,
            Some((total, chunks)) => {
                &&& (total > 0 ==> (r.bundle_size matches Some(s) && s@ == kb_chars(
                    total as int,
                )))
                &&& (total == 0 ==> r.bundle_size is None)
                &&& r.chunk_count == Some(chunks)
            },
        },
{
    let (bundle_size, chunk_count) = match bundle {
        None => (None, None),
        Some((total, chunks)) => (bundle_size_string(total), Some(chunks)),
    };
    BuildResult {
        success,
        duration_micros,
        bundle_size,
        chunk_count,
        warnings: count_warnings(output),
        errors: count_errors(output),
    }
}

} // verus!
