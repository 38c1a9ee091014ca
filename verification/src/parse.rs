//! Parsing of the textual date and period tokens the callers hand in.
//!
//! Dates arrive as `YYYY-MM-DD`, timestamps as `YYYY-MM-DDTHH:MM` with an
//! optional `:SS`, the explicit month period as `YYYY-MM`, and the explicit
//! year period as `YYYY`. A parse succeeds exactly when the token has that
//! shape and names a valid calendar value.

use vstd::prelude::*;
use vstd::string::StrSliceExecFns;
use crate::dates::{Date, DateTime, date_valid, datetime_valid};

verus! {

pub open spec fn is_digit(c: char) -> bool {
    '0' as u32 <= c as u32 && c as u32 <= '9' as u32
}

pub open spec fn digit_val(c: char) -> int {
    c as u32 - '0' as u32
}

/// The number named by two digits of `s` starting at `at`.
pub open spec fn two_digits(s: Seq<char>, at: int) -> int {
    10 * digit_val(s[at]) + digit_val(s[at + 1])
}

/// The number named by four digits of `s` starting at `at`.
pub open spec fn four_digits(s: Seq<char>, at: int) -> int {
    100 * two_digits(s, at) + two_digits(s, at + 2)
}

/// Four digits, dash, two digits, dash, two digits.
pub open spec fn date_token_shaped(s: Seq<char>) -> bool {
    &&& s.len() == 10
    &&& is_digit(s[0]) && is_digit(s[1]) && is_digit(s[2]) && is_digit(s[3])
    &&& s[4] == '-'
    &&& is_digit(s[5]) && is_digit(s[6])
    &&& s[7] == '-'
    &&& is_digit(s[8]) && is_digit(s[9])
}

pub open spec fn date_of_token(s: Seq<char>) -> Date {
    Date {
        year: four_digits(s, 0) as u32,
        month: two_digits(s, 5) as u32,
        day: two_digits(s, 8) as u32,
    }
}

/// A well-formed date token: shaped like a date and naming a valid one.
pub open spec fn date_token_wf(s: Seq<char>) -> bool {
    date_token_shaped(s) && date_valid(date_of_token(s))
}

/// A date part, `T`, two digits, colon, two digits, optionally a colon and
/// two more digits.
pub open spec fn datetime_token_shaped(s: Seq<char>) -> bool {
    &&& (s.len() == 16 || s.len() == 19)
    &&& date_token_shaped(s.take(10))
    &&& s[10] == 'T'
    &&& is_digit(s[11]) && is_digit(s[12])
    &&& s[13] == ':'
    &&& is_digit(s[14]) && is_digit(s[15])
    &&& (s.len() == 19 ==> s[16] == ':' && is_digit(s[17]) && is_digit(s[18]))
}

pub open spec fn datetime_of_token(s: Seq<char>) -> DateTime {
    DateTime {
        date: date_of_token(s.take(10)),
        hour: two_digits(s, 11) as u32,
        minute: two_digits(s, 14) as u32,
        second: if s.len() == 19 {
            two_digits(s, 17) as u32
        } else {
            0
        },
    }
}

/// A well-formed timestamp token: shaped like one and naming a valid one.
pub open spec fn datetime_token_wf(s: Seq<char>) -> bool {
    datetime_token_shaped(s) && datetime_valid(datetime_of_token(s))
}

/// Four digits, dash, two digits, naming a valid month of a valid year.
pub open spec fn month_token_wf(s: Seq<char>) -> bool {
    &&& s.len() == 7
    &&& is_digit(s[0]) && is_digit(s[1]) && is_digit(s[2]) && is_digit(s[3])
    &&& s[4] == '-'
    &&& is_digit(s[5]) && is_digit(s[6])
    &&& 1 <= four_digits(s, 0) <= 9999
    &&& 1 <= two_digits(s, 5) <= 12
}

/// Four digits naming a valid year.
pub open spec fn year_token_wf(s: Seq<char>) -> bool {
    &&& s.len() == 4
    &&& is_digit(s[0]) && is_digit(s[1]) && is_digit(s[2]) && is_digit(s[3])
    &&& 1 <= four_digits(s, 0) <= 9999
}

/// The value of one digit character, or nothing.
fn digit_of(c: char) -> (r: Option<u32>)
    ensures
        r matches Some(v) ==> is_digit(c) && v == digit_val(c),
        r is None <==> !is_digit(c),
{
    let v = c as u32;
    if '0' as u32 <= v && v <= '9' as u32 {
        Some(v - '0' as u32)
    } else {
        None
    }
}

/// Parse a `YYYY-MM-DD` token into a valid date.
pub fn parse_date(s: &str) -> (r: Option<Date>)
    ensures
        r matches Some(d) ==> date_token_wf(s@) && d == date_of_token(s@),
        r is None <==> !date_token_wf(s@),
{
    if s.unicode_len() != 10 {
        return None;
    }
    let y = match parse_four_digits(s, 0) {
        Some(v) => v,
        None => {
            return None;
        },
    };
    if s.get_char(4) != '-' {
        return None;
    }
    let m = match parse_two_digits(s, 5) {
        Some(v) => v,
        None => {
            return None;
        },
    };
    if s.get_char(7) != '-' {
        return None;
    }
    let d = match parse_two_digits(s, 8) {
        Some(v) => v,
        None => {
            return None;
        },
    };
    if y < 1 || y > 9999 || m < 1 || m > 12 || d < 1 {
        return None;
    }
    if d > crate::dates::days_in_month_exec(y, m) {
        return None;
    }
    Some(Date { year: y, month: m, day: d })
}

/// Parse a `YYYY-MM-DDTHH:MM` or `YYYY-MM-DDTHH:MM:SS` token into a valid
/// timestamp.
pub fn parse_datetime(s: &str) -> (r: Option<DateTime>)
    ensures
        r matches Some(t) ==> datetime_token_wf(s@) && t == datetime_of_token(s@),
        r is None <==> !datetime_token_wf(s@),
{
    let n = s.unicode_len();
    if n != 16 && n != 19 {
        return None;
    }
    let date_part = s.substring_char(0, 10);
    proof {
        assert(date_part@ =~= s@.take(10));
    }
    let d = match parse_date(date_part) {
        Some(v) => v,
        None => {
            return None;
        },
    };
    if s.get_char(10) != 'T' {
        return None;
    }
    let hour = match parse_two_digits(s, 11) {
        Some(v) => v,
        None => {
            return None;
        },
    };
    if s.get_char(13) != ':' {
        return None;
    }
    let minute = match parse_two_digits(s, 14) {
        Some(v) => v,
        None => {
            return None;
        },
    };
    let second: u32 = if n == 19 {
        if s.get_char(16) != ':' {
            return None;
        }
        match parse_two_digits(s, 17) {
            Some(v) => v,
            None => {
                return None;
            },
        }
    } else {
        0
    };
    if hour >= 24 || minute >= 60 || second >= 60 {
        return None;
    }
    Some(DateTime { date: d, hour, minute, second })
}

/// Parse a `YYYY-MM` period token into its year and month.
pub fn parse_month_token(s: &str) -> (r: Option<(u32, u32)>)
    ensures
        r matches Some(p) ==> month_token_wf(s@) && p.0 == four_digits(s@, 0) && p.1 == two_digits(
            s@,
            5,
        ),
        r is None <==> !month_token_wf(s@),
{
    if s.unicode_len() != 7 {
        return None;
    }
    let y = match parse_four_digits(s, 0) {
        Some(v) => v,
        None => {
            return None;
        },
    };
    if s.get_char(4) != '-' {
        return None;
    }
    let m = match parse_two_digits(s, 5) {
        Some(v) => v,
        None => {
            return None;
        },
    };
    if y < 1 || y > 9999 || m < 1 || m > 12 {
        return None;
    }
    Some((y, m))
}

/// Parse a `YYYY` period token into its year.
pub fn parse_year_token(s: &str) -> (r: Option<u32>)
    ensures
        r matches Some(y) ==> year_token_wf(s@) && y == four_digits(s@, 0),
        r is None <==> !year_token_wf(s@),
{
    if s.unicode_len() != 4 {
        return None;
    }
    let y = match parse_four_digits(s, 0) {
        Some(v) => v,
        None => {
            return None;
        },
    };
    if y < 1 || y > 9999 {
        return None;
    }
    Some(y)
}

/// Two digit characters of `s` starting at `at`, as a number.
fn parse_two_digits(s: &str, at: usize) -> (r: Option<u32>)
    requires
        at + 2 <= s@.len(),
        s@.len() <= usize::MAX,
    ensures
        r matches Some(v) ==> is_digit(s@[at as int]) && is_digit(s@[at as int + 1]) && v
            == two_digits(s@, at as int),
        r is None <==> !(is_digit(s@[at as int]) && is_digit(s@[at as int + 1])),
{
    let hi = match digit_of(s.get_char(at)) {
        Some(v) => v,
        None => {
            return None;
        },
    };
    let lo = match digit_of(s.get_char(at + 1)) {
        Some(v) => v,
        None => {
            return None;
        },
    };
    Some(10 * hi + lo)
}

/// Four digit characters of `s` starting at `at`, as a number.
fn parse_four_digits(s: &str, at: usize) -> (r: Option<u32>)
    requires
        at + 4 <= s@.len(),
        s@.len() <= usize::MAX,
    ensures
        r matches Some(v) ==> is_digit(s@[at as int]) && is_digit(s@[at as int + 1]) && is_digit(
            s@[at as int + 2],
        ) && is_digit(s@[at as int + 3]) && v == four_digits(s@, at as int),
        r is None <==> !(is_digit(s@[at as int]) && is_digit(s@[at as int + 1]) && is_digit(
            s@[at as int + 2],
        ) && is_digit(s@[at as int + 3])),
{
    let hi = match parse_two_digits(s, at) {
        Some(v) => v,
        None => {
            return None;
        },
    };
    let lo = match parse_two_digits(s, at + 2) {
        Some(v) => v,
        None => {
            return None;
        },
    };
    Some(100 * hi + lo)
}

} // verus!
