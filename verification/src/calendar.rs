//! The Gregorian calendar: which day of which month a day is.
//!
//! Days are counted from 1970-01-01, years as astronomers do.

use chrono::{DateTime, Datelike, Timelike};
use vstd::prelude::*;

verus! {

/// First second of the earliest day that the calendar knows.
pub const MIN_INSTANT: i64 = -8_334_601_228_800;

/// Last second of the latest day that the calendar knows.
pub const MAX_INSTANT: i64 = 8_210_266_876_799;

/// Whether a year has a day more.
pub open spec fn leap(y: int) -> bool {
    y % 4 == 0 && (y % 100 != 0 || y % 400 == 0)
}

/// The days of a month.
pub open spec fn month_len(y: int, m: int) -> int {
    if m == 2 {
        if leap(y) {
            29
        } else {
            28
        }
    } else if m == 4 || m == 6 || m == 9 || m == 11 {
        30
    } else {
        31
    }
}

/// The days of a year before a month of it.
pub open spec fn days_before_month(y: int, m: int) -> int
    decreases m,
{
    if m <= 1 {
        0
    } else {
        days_before_month(y, m - 1) + month_len(y, m - 1)
    }
}

/// The days from the first of year 1 to the first of a year.
pub open spec fn days_before_year(y: int) -> int {
    365 * (y - 1) + (y - 1) / 4 - (y - 1) / 100 + (y - 1) / 400
}

/// Whether there is such a date.
pub open spec fn is_date(y: int, m: int, d: int) -> bool {
    1 <= m <= 12 && 1 <= d <= month_len(y, m)
}

/// The days from 1970-01-01 to a date.
pub open spec fn day_number(y: int, m: int, d: int) -> int {
    days_before_year(y) + days_before_month(y, m) + d - 1 - 719_162
}

/// Whether a day is the `d`th of the `m`th month of some year.
pub open spec fn falls_on(day: int, m: int, d: int) -> bool {
    exists|y: int| is_date(y, m, d) && #[trigger] day_number(y, m, d) == day
}

/// The month and the day of the month of a day.
pub open spec fn civil_date(day: int) -> (int, int) {
    choose|md: (int, int)| #[trigger] falls_on(day, md.0, md.1)
}

/// How a quotient grows from one number to the next.
spec fn quotient_step(y: int, k: int) -> bool {
    y / k == (y - 1) / k + (if y % k == 0 {
        1int
    } else {
        0
    })
}

proof fn lemma_quotient_steps(y: int)
    ensures
        quotient_step(y, 4),
        quotient_step(y, 100),
        quotient_step(y, 400),
{
    assert(quotient_step(y, 4)) by {
        assert(y == 4 * (y / 4) + y % 4);
        assert(y - 1 == 4 * ((y - 1) / 4) + (y - 1) % 4);
    }
    assert(quotient_step(y, 100)) by {
        assert(y == 100 * (y / 100) + y % 100);
        assert(y - 1 == 100 * ((y - 1) / 100) + (y - 1) % 100);
    }
    assert(quotient_step(y, 400)) by {
        assert(y == 400 * (y / 400) + y % 400);
        assert(y - 1 == 400 * ((y - 1) / 400) + (y - 1) % 400);
    }
}

proof fn lemma_multiples(y: int)
    ensures
        y % 100 == 0 ==> y % 4 == 0,
        y % 400 == 0 ==> y % 100 == 0,
{
}

proof fn lemma_year_step(y: int)
    ensures
        days_before_year(y + 1) == days_before_year(y) + 365 + (if leap(y) {
            1int
        } else {
            0
        }),
{
    lemma_quotient_steps(y);
    lemma_multiples(y);
    let (a, b, c) = (y % 4 == 0, y % 100 == 0, y % 400 == 0);
    assert(leap(y) == (a && (!b || c)));
}

proof fn lemma_years_apart(y: int, z: int)
    requires
        y < z,
    ensures
        days_before_year(y + 1) <= days_before_year(z),
{
}

proof fn lemma_year_len(y: int)
    ensures
        days_before_month(y, 13) == 365 + (if leap(y) {
            1int
        } else {
            0
        }),
{
    reveal_with_fuel(days_before_month, 13);
}

proof fn lemma_months_apart(y: int, m: int, n: int)
    requires
        1 <= m < n <= 13,
    ensures
        days_before_month(y, m) + month_len(y, m) <= days_before_month(y, n),
    decreases n - m,
{
    if m + 1 < n {
        lemma_months_apart(y, m + 1, n);
    }
}

proof fn lemma_date_in_year(y: int, m: int, d: int)
    requires
        is_date(y, m, d),
    ensures
        days_before_year(y) <= day_number(y, m, d) + 719_162 < days_before_year(y + 1),
{
    lemma_year_step(y);
    lemma_year_len(y);
    lemma_months_apart(y, m, 13);
    lemma_before_month(y, m);
}

proof fn lemma_before_month(y: int, m: int)
    ensures
        days_before_month(y, m) >= 0,
    decreases m,
{
    if m > 1 {
        lemma_before_month(y, m - 1);
    }
}

/// No two dates are the same day.
pub proof fn dates_are_distinct(y: int, m: int, d: int, z: int, n: int, e: int)
    requires
        is_date(y, m, d),
        is_date(z, n, e),
        day_number(y, m, d) == day_number(z, n, e),
    ensures
        y == z && m == n && d == e,
{
    lemma_date_in_year(y, m, d);
    lemma_date_in_year(z, n, e);
    if y < z {
        lemma_years_apart(y, z);
    } else if z < y {
        lemma_years_apart(z, y);
    } else if m < n {
        lemma_months_apart(y, m, n);
    } else if n < m {
        lemma_months_apart(y, n, m);
    }
}

/// A day that is the `d`th of the `m`th month is so in name too.
proof fn lemma_civil_date(day: int, m: int, d: int)
    requires
        falls_on(day, m, d),
    ensures
        civil_date(day) == (m, d),
        1 <= m <= 12,
        1 <= d <= 31,
{
    let md = (m, d);
    assert(falls_on(day, md.0, md.1));
    let (n, e) = civil_date(day);
    let y = choose|y: int| is_date(y, m, d) && #[trigger] day_number(y, m, d) == day;
    let z = choose|z: int| is_date(z, n, e) && #[trigger] day_number(z, n, e) == day;
    dates_are_distinct(y, m, d, z, n, e);
}

proof fn lemma_next_day(y: int, m: int, d: int) -> (next: (int, int, int))
    requires
        is_date(y, m, d),
    ensures
        is_date(next.0, next.1, next.2),
        day_number(next.0, next.1, next.2) == day_number(y, m, d) + 1,
{
    if d < month_len(y, m) {
        (y, m, d + 1)
    } else if m < 12 {
        (y, m + 1, 1)
    } else {
        lemma_year_step(y);
        lemma_year_len(y);
        (y + 1, 1, 1)
    }
}

proof fn lemma_day_before(y: int, m: int, d: int) -> (prev: (int, int, int))
    requires
        is_date(y, m, d),
    ensures
        is_date(prev.0, prev.1, prev.2),
        day_number(prev.0, prev.1, prev.2) == day_number(y, m, d) - 1,
{
    if d > 1 {
        (y, m, d - 1)
    } else if m > 1 {
        (y, m - 1, month_len(y, m - 1))
    } else {
        lemma_year_step(y - 1);
        lemma_year_len(y - 1);
        (y - 1, 12, 31)
    }
}

proof fn lemma_some_date(day: int) -> (date: (int, int, int))
    ensures
        is_date(date.0, date.1, date.2),
        day_number(date.0, date.1, date.2) == day,
    decreases
        (if day < 0 {
            -day
        } else {
            day
        }),
{
    if day == 0 {
        reveal_with_fuel(days_before_month, 2);
        (1970, 1, 1)
    } else if day > 0 {
        let (y, m, d) = lemma_some_date(day - 1);
        lemma_next_day(y, m, d)
    } else {
        let (y, m, d) = lemma_some_date(day + 1);
        lemma_day_before(y, m, d)
    }
}

/// Every day is some day of some month, and the month is long enough for it.
pub proof fn every_day_has_a_date(day: int)
    ensures
        falls_on(day, civil_date(day).0, civil_date(day).1),
        1 <= civil_date(day).0 <= 12,
        1 <= civil_date(day).1 <= month_len(4, civil_date(day).0),
{
    let (y, m, d) = lemma_some_date(day);
    assert(falls_on(day, m, d));
    lemma_civil_date(day, m, d);
}

/// The fields of an instant that a schedule reads.
#[derive(Debug, Clone, Copy)]
pub struct CivilTime {
    pub minute: u32,
    pub hour: u32,
    pub day: u32,
    pub month: u32,
    pub weekday: u32,
}

/// Calls `chrono::DateTime::from_timestamp` and reads the fields of what it
/// returns, which is an instant of UTC in the Gregorian calendar. Weekdays
/// are counted from Sunday.
#[verifier::external_body]
fn read_fields(secs: i64) -> (r: CivilTime)
    requires
        MIN_INSTANT <= secs <= MAX_INSTANT,
    ensures
        r.minute == (secs as int / 60) % 60,
        r.hour == (secs as int / 3600) % 24,
        r.weekday == (secs as int / 86400 + 4) % 7,
        falls_on(secs as int / 86400, r.month as int, r.day as int),
{
    let t = DateTime::from_timestamp(secs, 0).expect("instant in calendar range");
    CivilTime {
        minute: t.minute(),
        hour: t.hour(),
        day: t.day(),
        month: t.month(),
        weekday: t.weekday().num_days_from_sunday(),
    }
}

/// The fields of an instant that a schedule reads.
pub fn civil_time(secs: i64) -> (r: CivilTime)
    requires
        MIN_INSTANT <= secs <= MAX_INSTANT,
    ensures
        r.minute == (secs as int / 60) % 60,
        r.hour == (secs as int / 3600) % 24,
        r.weekday == (secs as int / 86400 + 4) % 7,
        (r.month as int, r.day as int) == civil_date(secs as int / 86400),
        1 <= r.month <= 12,
        1 <= r.day <= 31,
{
    let r = read_fields(secs);
    proof {
        lemma_civil_date(secs as int / 86400, r.month as int, r.day as int);
    }
    r
}

// ---------------------------------------------------------------------------
// Laws
// ---------------------------------------------------------------------------

/// Each day of a month is the day after the one before it, a month follows on
/// the last day of the one before, and a year on the thirty-first of
/// December. The count starts with the first day of 1970.
pub proof fn days_follow_one_another(y: int, m: int, d: int)
    requires
        1 <= m <= 12,
    ensures
        day_number(1970, 1, 1) == 0,
        day_number(y, m, d + 1) == day_number(y, m, d) + 1,
        m < 12 ==> day_number(y, m + 1, 1) == day_number(y, m, month_len(y, m)) + 1,
        day_number(y + 1, 1, 1) == day_number(y, 12, 31) + 1,
{
    reveal_with_fuel(days_before_month, 2);
    lemma_year_step(y);
    lemma_year_len(y);
}

/// Thirty days have September, April, June and November; February has 28, and
/// 29 in a leap year; all the rest have 31.
pub proof fn months_have_their_days(y: int, m: int)
    requires
        1 <= m <= 12,
    ensures
        m == 1 || m == 3 || m == 5 || m == 7 || m == 8 || m == 10 || m == 12 ==> month_len(y, m)
            == 31,
        m == 4 || m == 6 || m == 9 || m == 11 ==> month_len(y, m) == 30,
        m == 2 && y % 4 != 0 ==> month_len(y, m) == 28,
        m == 2 && y % 4 == 0 && y % 100 != 0 ==> month_len(y, m) == 29,
        m == 2 && y % 100 == 0 && y % 400 != 0 ==> month_len(y, m) == 28,
        m == 2 && y % 400 == 0 ==> month_len(y, m) == 29,
{
    lemma_multiples(y);
}

/// An instant is read minute by minute and hour by hour, on the date of its
/// day; the first day of 1970 was a Thursday.
pub proof fn instants_are_read(secs: i64, r: CivilTime, y: int)
    requires
        MIN_INSTANT <= secs <= MAX_INSTANT,
        call_ensures(civil_time, (secs,), r),
    ensures
        r.minute == (secs as int / 60) % 60,
        r.hour == (secs as int / 3600) % 24,
        0 <= secs < 86400 ==> r.weekday == 4,
        forall|m: int, d: int|
            1 <= m <= 12 && 1 <= d <= month_len(y, m) && #[trigger] day_number(y, m, d)
                == secs as int / 86400 ==> r.month == m && r.day == d,
{
    assert forall|m: int, d: int|
        1 <= m <= 12 && 1 <= d <= month_len(y, m) && #[trigger] day_number(y, m, d) == secs as int
            / 86400 implies r.month == m && r.day == d by {
        assert(is_date(y, m, d));
        assert(falls_on(secs as int / 86400, m, d));
        lemma_civil_date(secs as int / 86400, m, d);
    }
}

} // verus!
