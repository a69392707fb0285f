//! Gregorian calendar arithmetic for rendering instants as RFC 3339 UTC text.

use vstd::prelude::*;

use crate::attribute::Timestamp;
use crate::text::{push_char, push_zero_padded, zero_padded};

verus! {

/// Gregorian leap year rule.
pub open spec fn is_leap_year(y: int) -> bool {
    y % 4 == 0 && (y % 100 != 0 || y % 400 == 0)
}

/// Number of days in year `y`.
pub open spec fn days_in_year(y: int) -> int {
    if is_leap_year(y) {
        366
    } else {
        365
    }
}

/// Number of days in month `m` (1 = January) of year `y`.
pub open spec fn days_in_month(y: int, m: int) -> int {
    if m == 2 {
        if is_leap_year(y) {
            29
        } else {
            28
        }
    } else if m == 4 || m == 6 || m == 9 || m == 11 {
        30
    } else {
        31
    }
}

/// Walks forward one year at a time from January 1st of year `y`, `days`
/// days ahead: the year reached and the day of that year (0-based).
pub open spec fn year_and_day(y: int, days: nat) -> (int, nat)
    decreases days,
{
    if days < days_in_year(y) {
        (y, days)
    } else {
        year_and_day(y + 1, (days - days_in_year(y)) as nat)
    }
}

/// Walks forward one month at a time from the first day of month `m` of
/// year `y`, `doy` days ahead: the month reached and its day (1-based).
pub open spec fn month_and_day(y: int, m: int, doy: nat) -> (int, nat)
    decreases 12 - m,
{
    if m >= 12 || doy < days_in_month(y, m) {
        (m, doy + 1)
    } else {
        month_and_day(y, m + 1, (doy - days_in_month(y, m)) as nat)
    }
}

/// The UTC calendar date (year, month, day) that lies `days` days after
/// 1970-01-01.
pub open spec fn civil_from_days(days: nat) -> (int, int, int) {
    let (y, doy) = year_and_day(1970, days);
    let (m, d) = month_and_day(y, 1, doy);
    (y, m, d as int)
}

/// Number of days in the `n` years starting with year `y`.
pub open spec fn span_of_years(y: int, n: nat) -> int
    decreases n,
{
    if n == 0 {
        0
    } else {
        days_in_year(y) + span_of_years(y + 1, (n - 1) as nat)
    }
}

/// Leap years in `1..=x` (for `x >= 0`).
spec fn leaps_through(x: int) -> int {
    x / 4 - x / 100 + x / 400
}

proof fn lemma_leap_step(x: int)
    requires
        x >= 1,
    ensures
        leaps_through(x) - leaps_through(x - 1) == if is_leap_year(x) { 1int } else { 0int },
{
    assert(x / 4 - (x - 1) / 4 == if x % 4 == 0 { 1int } else { 0int });
    assert(x / 100 - (x - 1) / 100 == if x % 100 == 0 { 1int } else { 0int });
    assert(x / 400 - (x - 1) / 400 == if x % 400 == 0 { 1int } else { 0int });
    if x % 100 == 0 {
        assert(x % 4 == 0);
    }
    if x % 400 == 0 {
        assert(x % 100 == 0);
    }
}

proof fn lemma_span_closed(y: int, n: nat)
    requires
        y >= 1,
    ensures
        span_of_years(y, n) == 365 * n + leaps_through(y + n - 1) - leaps_through(y - 1),
    decreases n,
{
    if n > 0 {
        lemma_span_closed(y + 1, (n - 1) as nat);
        lemma_leap_step(y);
    }
}

proof fn lemma_span_400(y: int)
    requires
        y >= 1,
    ensures
        span_of_years(y, 400) == 146097,
{
    lemma_span_closed(y, 400);
    let x = y - 1;
    assert((x + 400) / 4 == x / 4 + 100);
    assert((x + 400) / 100 == x / 100 + 4);
    assert((x + 400) / 400 == x / 400 + 1);
}

proof fn lemma_skip_years(y: int, n: nat, days: nat)
    requires
        days >= span_of_years(y, n),
    ensures
        year_and_day(y, days) == year_and_day(y + n, (days - span_of_years(y, n)) as nat),
    decreases n,
{
    if n > 0 {
        assert(span_of_years(y + 1, (n - 1) as nat) >= 0) by {
            lemma_span_nonneg(y + 1, (n - 1) as nat);
        }
        lemma_skip_years(y + 1, (n - 1) as nat, (days - days_in_year(y)) as nat);
    } else {
        assert(y + n == y);
    }
}

proof fn lemma_span_nonneg(y: int, n: nat)
    ensures
        span_of_years(y, n) >= 365 * n,
    decreases n,
{
    if n > 0 {
        lemma_span_nonneg(y + 1, (n - 1) as nat);
    }
}

proof fn lemma_skip_cycles(days: nat, k: nat)
    requires
        146097 * k <= days,
    ensures
        year_and_day(1970, days) == year_and_day((1970 + 400 * k) as int, (days - 146097 * k) as nat),
    decreases k,
{
    if k > 0 {
        let k1 = (k - 1) as nat;
        lemma_skip_cycles(days, k1);
        let y = (1970 + 400 * k1) as int;
        lemma_span_400(y);
        lemma_skip_years(y, 400, (days - 146097 * k1) as nat);
        assert(y + 400 == 1970 + 400 * k);
        assert((days - 146097 * k1) - 146097 == days - 146097 * k);
    }
}

fn is_leap_exec(y: u64) -> (r: bool)
    ensures
        r == is_leap_year(y as int),
{
    y % 4 == 0 && (y % 100 != 0 || y % 400 == 0)
}

fn days_in_year_exec(y: u64) -> (r: u64)
    ensures
        r == days_in_year(y as int),
{
    if is_leap_exec(y) {
        366
    } else {
        365
    }
}

fn days_in_month_exec(y: u64, m: u64) -> (r: u64)
    ensures
        r == days_in_month(y as int, m as int),
{
    if m == 2 {
        if is_leap_exec(y) {
            29
        } else {
            28
        }
    } else if m == 4 || m == 6 || m == 9 || m == 11 {
        30
    } else {
        31
    }
}

/// Converts seconds since the UNIX epoch to `(year, month, day, hour,
/// minute, second)` in UTC. The year is reduced modulo 2^32, as a cast to
/// `u32` does.
pub fn epoch_secs_to_datetime(secs: u64) -> (r: (u32, u32, u32, u32, u32, u32))
    ensures
        ({
            let (y, m, d) = civil_from_days((secs / 86400) as nat);
            &&& r.0 == y as u32
            &&& r.1 == m
            &&& r.2 == d
            &&& r.3 == (secs / 3600) % 24
            &&& r.4 == (secs / 60) % 60
            &&& r.5 == secs % 60
        }),
{
    let second = (secs % 60) as u32;
    let minutes = secs / 60;
    let minute = (minutes % 60) as u32;
    let hours = minutes / 60;
    let hour = (hours % 24) as u32;
    let days = hours / 24;
    assert(days == secs / 86400);
    assert(hours == secs / 3600);
    let cycles = days / 146097;
    let mut rem = days % 146097;
    assert(cycles <= 1_500_000_000);
    let mut year: u64 = 1970 + cycles * 400;
    let ghost base = year;
    let ghost rem0 = rem;
    proof {
        lemma_skip_cycles(days as nat, cycles as nat);
        assert(days - 146097 * cycles == rem);
    }
    while rem >= days_in_year_exec(year)
        invariant
            base == 1970 + cycles * 400,
            cycles <= 1_500_000_000,
            base <= year,
            rem0 < 146097,
            (year - base) * 365 + rem <= rem0,
            year_and_day(1970, days as nat) == year_and_day(year as int, rem as nat),
        decreases rem,
    {
        let diy = days_in_year_exec(year);
        rem = rem - diy;
        year = year + 1;
    }
    let ghost ydoy = year_and_day(1970, days as nat);
    assert(ydoy == (year as int, rem as nat));
    let mut month: u64 = 1;
    while month < 12 && rem >= days_in_month_exec(year, month)
        invariant
            1 <= month <= 12,
            rem < 366,
            year_and_day(1970, days as nat) == (year as int, ydoy.1),
            month_and_day(year as int, 1, ydoy.1) == month_and_day(year as int, month as int, rem as nat),
        decreases 12 - month,
    {
        let dim = days_in_month_exec(year, month);
        rem = rem - dim;
        month = month + 1;
    }
    let day = rem + 1;
    (year as u32, month as u32, day as u32, hour, minute, second)
}

/// Days of months `m..=12` of year `y`.
pub open spec fn days_from_month(y: int, m: int) -> int
    decreases 13 - m,
{
    if m > 12 {
        0
    } else {
        days_in_month(y, m) + days_from_month(y, m + 1)
    }
}

proof fn lemma_year_walk(y: int, days: nat)
    requires
        y >= 1970,
    ensures
        year_and_day(y, days).0 >= 1970,
        year_and_day(y, days).1 < days_in_year(year_and_day(y, days).0),
    decreases days,
{
    if days >= days_in_year(y) {
        lemma_year_walk(y + 1, (days - days_in_year(y)) as nat);
    }
}

proof fn lemma_month_walk(y: int, m: int, doy: nat)
    requires
        1 <= m <= 12,
        doy < days_from_month(y, m),
    ensures
        1 <= month_and_day(y, m, doy).0 <= 12,
        1 <= month_and_day(y, m, doy).1 <= days_in_month(y, month_and_day(y, m, doy).0),
    decreases 12 - m,
{
    if m < 12 && doy >= days_in_month(y, m) {
        lemma_month_walk(y, m + 1, (doy - days_in_month(y, m)) as nat);
    } else if m == 12 {
        assert(days_from_month(y, 13) == 0);
    }
}

/// The date that `civil_from_days` gives is a calendar date from 1970 on:
/// a month from 1 to 12 and a day within that month.
pub proof fn lemma_civil_date_valid(days: nat)
    ensures
        civil_from_days(days).0 >= 1970,
        1 <= civil_from_days(days).1 <= 12,
        1 <= civil_from_days(days).2 <= days_in_month(civil_from_days(days).0, civil_from_days(days).1),
{
    lemma_year_walk(1970, days);
    let (y, doy) = year_and_day(1970, days);
    assert(days_from_month(y, 1) == days_in_year(y)) by {
        reveal_with_fuel(days_from_month, 13);
    }
    lemma_month_walk(y, 1, doy);
}

/// RFC 3339 UTC text with seconds precision, `YYYY-MM-DDTHH:MM:SSZ`, of the
/// instant `secs` seconds after the UNIX epoch.
pub open spec fn rfc3339_text(secs: u64) -> Seq<char> {
    let (y, m, d) = civil_from_days((secs / 86400) as nat);
    zero_padded((y as u32) as nat, 4) + seq!['-'] + zero_padded(m as nat, 2) + seq!['-']
        + zero_padded(d as nat, 2) + seq!['T'] + zero_padded(((secs / 3600) % 24) as nat, 2)
        + seq![':'] + zero_padded(((secs / 60) % 60) as nat, 2) + seq![':'] + zero_padded(
        (secs % 60) as nat,
        2,
    ) + seq!['Z']
}

/// Formats an instant as RFC 3339 UTC text with seconds precision
/// (`YYYY-MM-DDTHH:MM:SSZ`); the sub-second part is dropped.
pub fn rfc3339_utc(t: Timestamp) -> (r: String)
    ensures
        r@ == rfc3339_text(t.secs),
{
    let (year, month, day, hour, minute, second) = epoch_secs_to_datetime(t.secs);
    let mut out = String::new();
    push_zero_padded(&mut out, year as u64, 4);
    push_char(&mut out, '-');
    push_zero_padded(&mut out, month as u64, 2);
    push_char(&mut out, '-');
    push_zero_padded(&mut out, day as u64, 2);
    push_char(&mut out, 'T');
    push_zero_padded(&mut out, hour as u64, 2);
    push_char(&mut out, ':');
    push_zero_padded(&mut out, minute as u64, 2);
    push_char(&mut out, ':');
    push_zero_padded(&mut out, second as u64, 2);
    push_char(&mut out, 'Z');
    assert(out@ =~= rfc3339_text(t.secs));
    out
}

} // verus!
