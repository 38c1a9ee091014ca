//! Calendar dates and timestamps for the session ledger.
//!
//! Reporting windows compare only the date portion of a timestamp; the
//! active-session view orders full timestamps. Dates are proleptic Gregorian,
//! numbered by `day_number` (day 0 is January 1 of year 1), which also yields
//! the weekday used by the weekly reporting window.

use vstd::prelude::*;
use vstd::arithmetic::div_mod::lemma_div_is_ordered_by_denominator;

verus! {

/// A calendar date (proleptic Gregorian).
#[derive(Clone, Copy, PartialEq, Eq, Structural, Debug)]
pub struct Date {
    pub year: u32,
    pub month: u32,
    pub day: u32,
}

/// A timestamp: a date plus a time of day.
#[derive(Clone, Copy, PartialEq, Eq, Structural, Debug)]
pub struct DateTime {
    pub date: Date,
    pub hour: u32,
    pub minute: u32,
    pub second: u32,
}

pub open spec fn is_leap_year(y: int) -> bool {
    y % 4 == 0 && (y % 100 != 0 || y % 400 == 0)
}

pub open spec fn days_in_month(y: int, m: int) -> int {
    if m == 2 {
        if is_leap_year(y) {
            29
        } else {
            28
        }
    } else if m == 4 || m == 6 || m == 9 || m == 11 {
        30
    } else {
        31
    }
}

pub open spec fn date_valid(d: Date) -> bool {
    &&& 1 <= d.year <= 9999
    &&& 1 <= d.month <= 12
    &&& 1 <= d.day <= days_in_month(d.year as int, d.month as int)
}

pub open spec fn datetime_valid(t: DateTime) -> bool {
    &&& date_valid(t.date)
    &&& t.hour < 24
    &&& t.minute < 60
    &&& t.second < 60
}

/// Days contributed by the months of year `y` that precede month `m`.
pub open spec fn days_before_month(y: int, m: int) -> int {
    let base: int = if m == 1 {
        0
    } else if m == 2 {
        31
    } else if m == 3 {
        59
    } else if m == 4 {
        90
    } else if m == 5 {
        120
    } else if m == 6 {
        151
    } else if m == 7 {
        181
    } else if m == 8 {
        212
    } else if m == 9 {
        243
    } else if m == 10 {
        273
    } else if m == 11 {
        304
    } else {
        334
    };
    base + if m >= 3 && is_leap_year(y) {
        1int
    } else {
        0int
    }
}

/// Number of leap years strictly before year `y` (among years 1..y).
pub open spec fn leap_years_before(y: int) -> int {
    let n = y - 1;
    n / 4 - n / 100 + n / 400
}

/// The index of date `d` in the sequence of all days: January 1 of year 1 is
/// day 0, and consecutive dates get consecutive numbers.
pub open spec fn day_number(d: Date) -> int {
    365 * (d.year - 1) + leap_years_before(d.year as int) + days_before_month(
        d.year as int,
        d.month as int,
    ) + (d.day - 1)
}

/// Day of the week of `d`, with Sunday as 0 (January 1 of year 1 is a Monday).
pub open spec fn weekday(d: Date) -> int {
    (day_number(d) + 1) % 7
}

/// Day number of the next Sunday on or after `d`.
pub open spec fn sunday_on_or_after(d: Date) -> int {
    day_number(d) + (7 - weekday(d)) % 7
}

/// Calendar order on dates.
pub open spec fn date_le(a: Date, b: Date) -> bool {
    if a.year != b.year {
        a.year < b.year
    } else if a.month != b.month {
        a.month < b.month
    } else {
        a.day <= b.day
    }
}

/// Chronological order on timestamps: by date, then by time of day.
pub open spec fn datetime_le(a: DateTime, b: DateTime) -> bool {
    if a.date != b.date {
        date_le(a.date, b.date)
    } else if a.hour != b.hour {
        a.hour < b.hour
    } else if a.minute != b.minute {
        a.minute < b.minute
    } else {
        a.second <= b.second
    }
}

pub fn date_le_exec(a: &Date, b: &Date) -> (r: bool)
    ensures
        r == date_le(*a, *b),
{
    if a.year != b.year {
        a.year < b.year
    } else if a.month != b.month {
        a.month < b.month
    } else {
        a.day <= b.day
    }
}

pub fn datetime_le_exec(a: &DateTime, b: &DateTime) -> (r: bool)
    ensures
        r == datetime_le(*a, *b),
{
    if a.date != b.date {
        date_le_exec(&a.date, &b.date)
    } else if a.hour != b.hour {
        a.hour < b.hour
    } else if a.minute != b.minute {
        a.minute < b.minute
    } else {
        a.second <= b.second
    }
}

pub fn days_in_month_exec(y: u32, m: u32) -> (r: u32)
    ensures
        r == days_in_month(y as int, m as int),
{
    if m == 2 {
        if (y % 4 == 0 && y % 100 != 0) || y % 400 == 0 {
            29
        } else {
            28
        }
    } else if m == 4 || m == 6 || m == 9 || m == 11 {
        30
    } else {
        31
    }
}

pub fn day_number_exec(d: &Date) -> (n: u64)
    requires
        date_valid(*d),
    ensures
        n == day_number(*d),
        n < 3660000,
{
    let y = d.year as u64;
    let n1 = y - 1;
    proof {
        lemma_div_is_ordered_by_denominator(n1 as int, 4, 100);
    }
    let leaps = n1 / 4 - n1 / 100 + n1 / 400;
    let before_month: u64 = if d.month == 1 {
        0
    } else if d.month == 2 {
        31
    } else if d.month == 3 {
        59
    } else if d.month == 4 {
        90
    } else if d.month == 5 {
        120
    } else if d.month == 6 {
        151
    } else if d.month == 7 {
        181
    } else if d.month == 8 {
        212
    } else if d.month == 9 {
        243
    } else if d.month == 10 {
        273
    } else if d.month == 11 {
        304
    } else {
        334
    };
    let leap_extra: u64 = if d.month >= 3 && ((d.year % 4 == 0 && d.year % 100 != 0) || d.year % 400
        == 0) {
        1
    } else {
        0
    };
    365 * n1 + leaps + before_month + leap_extra + (d.day as u64 - 1)
}

/// Day of the week as executable code; Sunday is 0.
pub fn weekday_exec(d: &Date) -> (w: u64)
    requires
        date_valid(*d),
    ensures
        w == weekday(*d),
        w < 7,
{
    (day_number_exec(d) + 1) % 7
}

pub proof fn lemma_datetime_le_total(a: DateTime, b: DateTime)
    ensures
        datetime_le(a, b) || datetime_le(b, a),
{
}

pub proof fn lemma_datetime_le_trans(a: DateTime, b: DateTime, c: DateTime)
    requires
        datetime_le(a, b),
        datetime_le(b, c),
    ensures
        datetime_le(a, c),
{
}

} // verus!
