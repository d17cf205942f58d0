//! Upload dates: reading them with chrono and turning calendar dates into
//! UNIX timestamps.

use chrono::{DateTime, Datelike, NaiveDate};
use vstd::prelude::*;
use crate::text::{chars_of, trim, trim_bounds, string_of};

verus! {

// ---------------------------------------------------------------------------
// chrono
// ---------------------------------------------------------------------------

/// The calendar date, as (year, month, day), that chrono reads from `text` in the
/// strftime format `fmt`, if it reads one.
pub uninterp spec fn naive_date_read(text: Seq<char>, fmt: Seq<char>) -> Option<(i32, u32, u32)>;

/// The instant, in seconds since the UNIX epoch, that chrono reads from the
/// RFC 3339 text `text`, if it reads one.
pub uninterp spec fn rfc3339_instant(text: Seq<char>) -> Option<i64>;

/// Calls `chrono::NaiveDate::parse_from_str(text, fmt)` and returns the date it reads
/// as (year, month, day).  Claims that the result is a function of the two texts
/// alone, and that a date read is a valid date of the proleptic Gregorian calendar
/// within chrono's year range (-262143 to 262142), as `NaiveDate` values always are.
#[verifier::external_body]
fn chrono_parse_date(text: &str, fmt: &str) -> (r: Option<(i32, u32, u32)>)
    ensures
        r == naive_date_read(text@, fmt@),
        r matches Some((y, m, d)) ==> -262143 <= y <= 262142 && 1 <= m <= 12 && 1 <= d
            <= days_in_month(y as int, m as int),
{
    NaiveDate::parse_from_str(text, fmt).ok().map(|d| (d.year(), d.month(), d.day()))
}

/// Calls `chrono::DateTime::parse_from_rfc3339(text)` and returns the instant it
/// reads as seconds since the UNIX epoch (`DateTime::timestamp`).  Claims only that
/// the result is a function of the text alone.
#[verifier::external_body]
fn chrono_parse_rfc3339(text: &str) -> (r: Option<i64>)
    ensures
        r == rfc3339_instant(text@),
{
    DateTime::parse_from_rfc3339(text).ok().map(|d| d.timestamp())
}

// ---------------------------------------------------------------------------
// The proleptic Gregorian calendar
// ---------------------------------------------------------------------------

/// Leap years of the Gregorian calendar.
pub open spec fn is_leap(y: int) -> bool {
    (y % 4 == 0 && y % 100 != 0) || y % 400 == 0
}

/// The number of days of month `m` of year `y`.
pub open spec fn days_in_month(y: int, m: int) -> int {
    if m == 2 {
        if is_leap(y) {
            29
        } else {
            28
        }
    } else if m == 4 || m == 6 || m == 9 || m == 11 {
        30
    } else {
        31
    }
}

/// The number of leap years among the years before `y` since year 1
/// (negative for `y` before year 1, so that differences count leap years).
pub open spec fn leaps_before(y: int) -> int {
    (y - 1) / 4 - (y - 1) / 100 + (y - 1) / 400
}

/// The number of days from 1970-01-01 to the first day of year `y`.
pub open spec fn days_before_year(y: int) -> int {
    365 * (y - 1970) + leaps_before(y) - leaps_before(1970)
}

/// The number of days of year `y` before the first day of month `m`.
pub open spec fn days_before_month(y: int, m: int) -> int {
    let common: int = if m == 1 {
        0
    } else if m == 2 {
        31
    } else if m == 3 {
        59
    } else if m == 4 {
        90
    } else if m == 5 {
        120
    } else if m == 6 {
        151
    } else if m == 7 {
        181
    } else if m == 8 {
        212
    } else if m == 9 {
        243
    } else if m == 10 {
        273
    } else if m == 11 {
        304
    } else {
        334
    };
    common + if m > 2 && is_leap(y) {
        1int
    } else {
        0int
    }
}

/// The number of days from 1970-01-01 to the date `y-m-d`.
pub open spec fn epoch_day(y: int, m: int, d: int) -> int {
    days_before_year(y) + days_before_month(y, m) + d - 1
}

/// The UNIX timestamp of midnight UTC at the start of the date `y-m-d`.
pub open spec fn midnight_seconds(y: int, m: int, d: int) -> int {
    86400 * epoch_day(y, m, d)
}

/// The upload date read from `text`, trimmed, in the strftime format `fmt`: midnight
/// UTC of the date chrono reads.
pub open spec fn calendar_date(text: Seq<char>, fmt: Seq<char>) -> Option<i64> {
    match naive_date_read(trim(text), fmt) {
        Some((y, m, d)) => Some(midnight_seconds(y as int, m as int, d as int) as i64),
        None => None,
    }
}

/// `(x + k * n) / n == x / n + k` for the positive divisors used here.
proof fn lemma_shifted_div(x: int, k: int, n: nat)
    requires
        n > 0,
    ensures
        (x + k * n) / (n as int) == x / (n as int) + k,
{
    vstd::arithmetic::div_mod::lemma_hoist_over_denominator(x, k, n);
}

/// The UNIX timestamp of midnight UTC at the start of the date `y-m-d`
/// (what chrono's `and_hms_opt(0, 0, 0)`, `and_utc()` and `timestamp()` give).
pub fn midnight_timestamp(y: i32, m: u32, d: u32) -> (t: i64)
    requires
        -262143 <= y <= 262142,
        1 <= m <= 12,
        1 <= d <= 31,
    ensures
        t == midnight_seconds(y as int, m as int, d as int),
{
    // Shift the year by a multiple of 400 so that every quotient is of a positive number.
    let a: i64 = y as i64 - 1 + 400000;
    let leaps: i64 = a / 4 - a / 100 + a / 400 - (100000 - 4000 + 1000);
    proof {
        let x = y - 1;
        lemma_shifted_div(x, 100000, 4);
        lemma_shifted_div(x, 4000, 100);
        lemma_shifted_div(x, 1000, 400);
        assert(leaps == leaps_before(y as int));
    }
    let leap = (y % 4 == 0 && y % 100 != 0) || y % 400 == 0;
    assert(leap == is_leap(y as int));
    let common: i64 = if m == 1 {
        0
    } else if m == 2 {
        31
    } else if m == 3 {
        59
    } else if m == 4 {
        90
    } else if m == 5 {
        120
    } else if m == 6 {
        151
    } else if m == 7 {
        181
    } else if m == 8 {
        212
    } else if m == 9 {
        243
    } else if m == 10 {
        273
    } else if m == 11 {
        304
    } else {
        334
    };
    let month_days: i64 = common + if m > 2 && leap {
        1
    } else {
        0
    };
    // leaps_before(1970) == 477
    assert(leaps_before(1970) == 477);
    let years: i64 = y as i64 - 1970;
    assert(-264113 <= years <= 260172);
    assert(-96401245 <= 365 * years <= 94962780) by (nonlinear_arith)
        requires
            -264113 <= years <= 260172,
    ;
    assert(-100000 <= leaps <= 100000) by {
        assert(0 <= a <= 662141);
    }
    let days: i64 = 365 * years + leaps - 477 + month_days + d as i64 - 1;
    assert(days == epoch_day(y as int, m as int, d as int));
    assert(-96600000 <= days <= 96600000);
    assert(-8346240000000 <= 86400 * days <= 8346240000000) by (nonlinear_arith)
        requires
            -96600000 <= days <= 96600000,
    ;
    86400 * days
}

/// The upload date read from `text`, trimmed, in the strftime format `fmt`
/// (chrono's `NaiveDate::parse_from_str` at midnight UTC).
pub fn parse_calendar_date(text: &str, fmt: &str) -> (r: Option<i64>)
    ensures
        r == calendar_date(text@, fmt@),
{
    let v = chars_of(text);
    let (a, b) = trim_bounds(&v);
    let trimmed = string_of(&v, a, b);
    match chrono_parse_date(trimmed.as_str(), fmt) {
        Some((y, m, d)) => Some(midnight_timestamp(y, m, d)),
        None => None,
    }
}

/// The instant read from the RFC 3339 text `text`, in seconds since the UNIX epoch.
pub fn parse_rfc3339(text: &str) -> (r: Option<i64>)
    ensures
        r == rfc3339_instant(text@),
{
    chrono_parse_rfc3339(text)
}

} // verus!
