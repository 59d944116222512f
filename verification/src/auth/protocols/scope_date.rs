//! The date of a SigV4 credential scope (`YYYYMMDD`) as the instant its day
//! starts, in seconds since the Unix epoch.

use crate::digest::MAX_SIGNING_TIME_SECS;
use vstd::prelude::*;

verus! {

/// Whether `y` is a leap year of the Gregorian calendar.
pub open spec fn is_leap(y: int) -> bool {
    (y % 4 == 0 && y % 100 != 0) || y % 400 == 0
}

/// The number of days of the year `y`.
pub open spec fn year_len(y: int) -> int {
    if is_leap(y) {
        366
    } else {
        365
    }
}

/// The number of days from 1 January 1970 to 1 January of the year `y`.
pub open spec fn days_before_year(y: int) -> int
    decreases y - 1970,
{
    if y <= 1970 {
        0
    } else {
        days_before_year(y - 1) + year_len(y - 1)
    }
}

/// The number of days of the month `m` (1 to 12) of the year `y`.
pub open spec fn month_len(y: int, m: int) -> int {
    if m == 2 {
        if is_leap(y) {
            29
        } else {
            28
        }
    } else if m == 4 || m == 6 || m == 9 || m == 11 {
        30
    } else {
        31
    }
}

/// The number of days of the year `y` before the month `m` starts.
pub open spec fn days_before_month(y: int, m: int) -> int
    decreases m,
{
    if m <= 1 {
        0
    } else {
        days_before_month(y, m - 1) + month_len(y, m - 1)
    }
}

/// Whether `c` is an ASCII digit.
pub open spec fn is_digit(c: char) -> bool {
    '0' <= c && c <= '9'
}

/// The value of an ASCII digit.
pub open spec fn digit(c: char) -> int {
    c as int - '0' as int
}

/// The seconds since the Unix epoch at which the day written `YYYYMMDD`
/// starts: none unless it is eight digits naming a day of a year from 1970
/// on (and not past the year 9999).
pub open spec fn scope_date_secs(d: Seq<char>) -> Option<u64> {
    if d.len() == 8 && (forall|i: int| 0 <= i < 8 ==> #[trigger] is_digit(d[i])) {
        let y = digit(d[0]) * 1000 + digit(d[1]) * 100 + digit(d[2]) * 10 + digit(d[3]);
        let m = digit(d[4]) * 10 + digit(d[5]);
        let day = digit(d[6]) * 10 + digit(d[7]);
        if 1970 <= y && 1 <= m <= 12 && 1 <= day <= month_len(y, m) {
            let secs = (days_before_year(y) + days_before_month(y, m) + day - 1) * 86400;
            if secs <= MAX_SIGNING_TIME_SECS {
                Some(secs as u64)
            } else {
                None
            }
        } else {
            None
        }
    } else {
        None
    }
}

/// A year has at most 366 days.
proof fn lemma_days_before_year_bound(y: int)
    requires
        y >= 1970,
    ensures
        0 <= days_before_year(y) <= 366 * (y - 1970),
    decreases y - 1970,
{
    if y > 1970 {
        lemma_days_before_year_bound(y - 1);
    }
}

/// A month has at most 31 days.
proof fn lemma_days_before_month_bound(y: int, m: int)
    requires
        m >= 1,
    ensures
        0 <= days_before_month(y, m) <= 31 * (m - 1),
    decreases m,
{
    if m > 1 {
        lemma_days_before_month_bound(y, m - 1);
    }
}

/// Whether `y` is a leap year (see [`is_leap`]).
fn leap(y: u64) -> (r: bool)
    ensures
        r == is_leap(y as int),
{
    (y % 4 == 0 && y % 100 != 0) || y % 400 == 0
}

/// The value of a digit character (see [`digit`]).
fn digit_value(c: char) -> (r: u64)
    requires
        is_digit(c),
    ensures
        r == digit(c),
        r <= 9,
{
    (c as u32 - '0' as u32) as u64
}

/// The instant a credential-scope date starts (see [`scope_date_secs`]).
pub fn parse_scope_date(d: &str) -> (r: Option<u64>)
    ensures
        r == scope_date_secs(d@),
        r matches Some(t) ==> t <= MAX_SIGNING_TIME_SECS,
{
    let cs = crate::text::chars_of(d);
    if cs.len() != 8 {
        return None;
    }
    let mut i: usize = 0;
    while i < 8
        invariant
            0 <= i <= 8,
            cs@ == d@,
            cs@.len() == 8,
            forall|j: int| 0 <= j < i ==> #[trigger] is_digit(cs@[j]),
        decreases 8 - i,
    {
        if !(cs[i] >= '0' && cs[i] <= '9') {
            assert(!is_digit(d@[i as int]));
            return None;
        }
        i += 1;
    }
    let y = digit_value(cs[0]) * 1000 + digit_value(cs[1]) * 100 + digit_value(cs[2]) * 10
        + digit_value(cs[3]);
    let m = digit_value(cs[4]) * 10 + digit_value(cs[5]);
    let day = digit_value(cs[6]) * 10 + digit_value(cs[7]);
    if y < 1970 || m < 1 || m > 12 || day < 1 {
        return None;
    }
    // days of the years before
    let mut days: u64 = 0;
    let mut yy: u64 = 1970;
    while yy < y
        invariant
            1970 <= yy <= y <= 9999,
            days == days_before_year(yy as int),
            days <= 366 * (yy - 1970),
        decreases y - yy,
    {
        proof {
            lemma_days_before_year_bound(yy as int);
        }
        days = days + if leap(yy) {
            366
        } else {
            365
        };
        yy = yy + 1;
    }
    // days of the months before
    let mut mm: u64 = 1;
    let mut in_year: u64 = 0;
    while mm < m
        invariant
            1 <= mm <= m <= 12,
            in_year == days_before_month(y as int, mm as int),
            in_year <= 31 * (mm - 1),
        decreases m - mm,
    {
        let len: u64 = if mm == 2 {
            if leap(y) {
                29
            } else {
                28
            }
        } else if mm == 4 || mm == 6 || mm == 9 || mm == 11 {
            30
        } else {
            31
        };
        in_year = in_year + len;
        mm = mm + 1;
    }
    let month_days: u64 = if m == 2 {
        if leap(y) {
            29
        } else {
            28
        }
    } else if m == 4 || m == 6 || m == 9 || m == 11 {
        30
    } else {
        31
    };
    if day > month_days {
        return None;
    }
    let total = days + in_year + day - 1;
    assert(total <= 3000000);
    assert(total * 86400 <= 3000000 * 86400) by (nonlinear_arith)
        requires
            total <= 3000000,
    ;
    let secs = total * 86400;
    if secs > MAX_SIGNING_TIME_SECS {
        return None;
    }
    Some(secs)
}

} // verus!
