//! Calendar-correct timestamp formatting: converts a point in time, given
//! as whole seconds since 1970-01-01T00:00:00 UTC, into
//! `YYYY-MM-DDTHH:MM:SSZ`. The input is always treated as UTC; the
//! proleptic Gregorian leap-year rule is implemented directly, with no
//! locale or timezone dependency.

use vstd::prelude::*;

verus! {

use crate::numfmt::pad2_str;
use crate::numfmt::pad4_str;
use crate::numfmt::push_pad2;
use crate::numfmt::push_pad4;

/// The proleptic Gregorian leap-year rule: divisible by 4 and (not
/// divisible by 100 or divisible by 400).
pub open spec fn is_leap_year(y: int) -> bool {
    y % 4 == 0 && (y % 100 != 0 || y % 400 == 0)
}

pub open spec fn days_in_year(y: int) -> int {
    if is_leap_year(y) {
        366
    } else {
        365
    }
}

pub open spec fn days_in_month(y: int, m: int) -> int {
    if m == 2 {
        if is_leap_year(y) {
            29
        } else {
            28
        }
    } else if m == 4 || m == 6 || m == 9 || m == 11 {
        30
    } else {
        31
    }
}

/// Days from 1970-01-01 to the first day of year `y`.
pub open spec fn days_before_year(y: int) -> int
    decreases y - 1970,
{
    if y <= 1970 {
        0
    } else {
        days_before_year(y - 1) + days_in_year(y - 1)
    }
}

/// Days from the first day of year `y` to the first day of its month `m`.
pub open spec fn days_before_month(y: int, m: int) -> int
    decreases m,
{
    if m <= 1 {
        0
    } else {
        days_before_month(y, m - 1) + days_in_month(y, m - 1)
    }
}

/// The day number (days since 1970-01-01) of the calendar date `y-m-d`.
pub open spec fn civil_day_number(y: int, m: int, d: int) -> int {
    days_before_year(y) + days_before_month(y, m) + (d - 1)
}

/// A calendar date this library can produce: on or after 1970, with a real
/// month and a day the month has.
pub open spec fn valid_civil(y: int, m: int, d: int) -> bool {
    &&& 1970 <= y
    &&& 1 <= m <= 12
    &&& 1 <= d <= days_in_month(y, m)
}

/// Strips whole years off a day count, starting at year `y`: the year the
/// count lands in and the remaining day of that year.
pub open spec fn year_step(y: int, days: int) -> (int, int)
    decreases days,
{
    if days < days_in_year(y) {
        (y, days)
    } else {
        year_step(y + 1, days - days_in_year(y))
    }
}

/// Strips whole months of year `y` off a day count, starting at month `m`
/// (never past December): the month the count lands in and the remaining
/// zero-based day of that month.
pub open spec fn month_step(y: int, m: int, days: int) -> (int, int)
    decreases 12 - m,
{
    if m >= 12 || days < days_in_month(y, m) {
        (m, days)
    } else {
        month_step(y, m + 1, days - days_in_month(y, m))
    }
}

/// The year that day number `days` falls in.
pub open spec fn year_of(days: int) -> int {
    year_step(1970, days).0
}

/// The zero-based day of its year.
pub open spec fn yday_of(days: int) -> int {
    year_step(1970, days).1
}

/// The month that day number `days` falls in.
pub open spec fn month_of(days: int) -> int {
    month_step(year_of(days), 1, yday_of(days)).0
}

/// The one-based day of its month.
pub open spec fn day_of(days: int) -> int {
    month_step(year_of(days), 1, yday_of(days)).1 + 1
}

/// The date portion `YYYY-MM-DD` of the instant `secs`.
pub open spec fn date_chars(secs: int) -> Seq<char> {
    let days = secs / 86400;
    pad4_str(year_of(days)) + seq!['-'] + pad2_str(month_of(days)) + seq!['-'] + pad2_str(
        day_of(days),
    )
}

/// The time-of-day portion `HH:MM:SS` of the instant `secs`.
pub open spec fn time_chars(secs: int) -> Seq<char> {
    let tod = secs % 86400;
    pad2_str(tod / 3600) + seq![':'] + pad2_str((tod % 3600) / 60) + seq![':'] + pad2_str(
        tod % 60,
    )
}

/// The full timestamp `YYYY-MM-DDTHH:MM:SSZ` of the instant `secs`: the
/// date portion, then the literal `T`, the time of day, and the literal
/// `Z`.
pub open spec fn timestamp_chars(secs: int) -> Seq<char> {
    date_chars(secs) + seq!['T'] + time_chars(secs) + seq!['Z']
}

proof fn lemma_year_step_inverse(y: int, days: int)
    requires
        1970 <= y,
        0 <= days,
    ensures
        y <= year_step(y, days).0,
        0 <= year_step(y, days).1 < days_in_year(year_step(y, days).0),
        days_before_year(year_step(y, days).0) - days_before_year(y) + year_step(y, days).1
            == days,
    decreases days,
{
    if days < days_in_year(y) {
    } else {
        lemma_year_step_inverse(y + 1, days - days_in_year(y));
    }
}

proof fn lemma_month_step_inverse(y: int, m: int, days: int)
    requires
        1 <= m <= 12,
        0 <= days,
        days + days_before_month(y, m) < days_before_month(y, 13),
    ensures
        m <= month_step(y, m, days).0 <= 12,
        0 <= month_step(y, m, days).1 < days_in_month(y, month_step(y, m, days).0),
        days_before_month(y, month_step(y, m, days).0) - days_before_month(y, m) + month_step(
            y,
            m,
            days,
        ).1 == days,
    decreases 12 - m,
{
    if m >= 12 || days < days_in_month(y, m) {
        if m >= 12 {
            assert(days_before_month(y, 13) == days_before_month(y, 12) + days_in_month(y, 12));
        }
    } else {
        lemma_month_step_inverse(y, m + 1, days - days_in_month(y, m));
    }
}

/// The months of a year tile it exactly.
proof fn lemma_year_months(y: int)
    ensures
        days_before_month(y, 13) == days_in_year(y),
{
    reveal_with_fuel(days_before_month, 14);
}

/// Calendar correctness of the decomposition: every nonnegative day count
/// lands on a valid Gregorian date on or after 1970, and that date's day
/// number is the count again.
pub proof fn lemma_civil_inverse(days: int)
    requires
        0 <= days,
    ensures
        valid_civil(year_of(days), month_of(days), day_of(days)),
        civil_day_number(year_of(days), month_of(days), day_of(days)) == days,
{
    lemma_year_step_inverse(1970, days);
    lemma_year_months(year_of(days));
    lemma_month_step_inverse(year_of(days), 1, yday_of(days));
}

/// The date portion is exactly the timestamp up to the literal `T`: what
/// `format_date` returns is the prefix of what `format_timestamp` returns.
pub proof fn lemma_date_prefix(secs: int)
    ensures
        timestamp_chars(secs).take(date_chars(secs).len() as int) == date_chars(secs),
        timestamp_chars(secs)[date_chars(secs).len() as int] == 'T',
{
    assert(timestamp_chars(secs).take(date_chars(secs).len() as int) =~= date_chars(secs));
}

fn is_leap_year_exec(y: u64) -> (r: bool)
    ensures
        r == is_leap_year(y as int),
{
    y % 4 == 0 && (y % 100 != 0 || y % 400 == 0)
}

fn days_in_year_exec(y: u64) -> (r: u64)
    ensures
        r == days_in_year(y as int),
{
    if is_leap_year_exec(y) {
        366
    } else {
        365
    }
}

fn days_in_month_exec(y: u64, m: u64) -> (r: u64)
    ensures
        r == days_in_month(y as int, m as int),
{
    if m == 2 {
        if is_leap_year_exec(y) {
            29
        } else {
            28
        }
    } else if m == 4 || m == 6 || m == 9 || m == 11 {
        30
    } else {
        31
    }
}

/// Decomposes a day count (days since 1970-01-01) into its calendar year,
/// month and one-based day, exactly the `year_of` / `month_of` / `day_of`
/// decomposition.
pub fn decompose_days(days_total: u64) -> (r: (u64, u64, u64))
    ensures
        r.0 == year_of(days_total as int),
        r.1 == month_of(days_total as int),
        r.2 == day_of(days_total as int),
{
    let mut year: u64 = 1970;
    let mut days: u64 = days_total;
    let mut diy: u64 = days_in_year_exec(year);
    while days >= diy
        invariant
            1970 <= year,
            diy == days_in_year(year as int),
            365 * (year as int - 1970) <= days_total as int - days as int,
            year_step(1970, days_total as int) == year_step(year as int, days as int),
        decreases days,
    {
        days = days - diy;
        year = year + 1;
        diy = days_in_year_exec(year);
    }
    let ghost yd = days as int;
    proof {
        assert(year_of(days_total as int) == year as int);
        assert(yday_of(days_total as int) == yd);
    }
    let mut month: u64 = 1;
    let mut dim: u64 = days_in_month_exec(year, month);
    while days >= dim && month < 12
        invariant
            1 <= month <= 12,
            days <= yd,
            dim == days_in_month(year as int, month as int),
            month_step(year as int, 1, yd) == month_step(year as int, month as int, days as int),
        decreases 12 - month,
    {
        days = days - dim;
        month = month + 1;
        dim = days_in_month_exec(year, month);
    }
    proof {
        assert(month_of(days_total as int) == month as int);
        assert(day_of(days_total as int) == days as int + 1);
    }
    (year, month, days + 1)
}

/// Formats the instant `secs` (whole seconds since 1970-01-01T00:00:00
/// UTC) as `YYYY-MM-DDTHH:MM:SSZ`, exactly `timestamp_chars`: the
/// calendar-correct date, the literal `T`, the time of day, and the
/// literal `Z`.
pub fn format_timestamp(secs: u64) -> (r: String)
    ensures
        r@ == timestamp_chars(secs as int),
{
    let days_total = secs / 86400;
    let (year, month, day) = decompose_days(days_total);
    let tod = secs % 86400;
    let hour = tod / 3600;
    let minute = (tod % 3600) / 60;
    let second = tod % 60;
    proof {
        reveal_strlit("-");
        reveal_strlit("T");
        reveal_strlit(":");
        reveal_strlit("Z");
    }
    let mut s = String::new();
    push_pad4(&mut s, year);
    s.append("-");
    push_pad2(&mut s, month);
    s.append("-");
    push_pad2(&mut s, day);
    s.append("T");
    push_pad2(&mut s, hour);
    s.append(":");
    push_pad2(&mut s, minute);
    s.append(":");
    push_pad2(&mut s, second);
    s.append("Z");
    proof {
        assert(s@ =~= timestamp_chars(secs as int));
    }
    s
}

/// Formats only the date portion of the instant `secs` as `YYYY-MM-DD`:
/// everything of `timestamp_chars` before the literal `T`.
pub fn format_date(secs: u64) -> (r: String)
    ensures
        r@ == date_chars(secs as int),
{
    let days_total = secs / 86400;
    let (year, month, day) = decompose_days(days_total);
    proof {
        reveal_strlit("-");
    }
    let mut s = String::new();
    push_pad4(&mut s, year);
    s.append("-");
    push_pad2(&mut s, month);
    s.append("-");
    push_pad2(&mut s, day);
    proof {
        assert(s@ =~= date_chars(secs as int));
    }
    s
}

} // verus!
