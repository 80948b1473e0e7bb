//! Calendar arithmetic: how a wall-clock time of the proleptic Gregorian
//! calendar relates to seconds since the Unix epoch, and how far a local
//! time may lie from the same time read as UTC.
use vstd::prelude::*;

verus! {

/// `y` is a leap year of the Gregorian calendar.
pub open spec fn is_leap_year(y: int) -> bool {
    (y % 4 == 0 && y % 100 != 0) || y % 400 == 0
}

/// The number of days of month `m` (1 to 12) of year `y`.
pub open spec fn days_in_month(y: int, m: int) -> int {
    if m == 2 {
        if is_leap_year(y) {
            29
        } else {
            28
        }
    } else if m == 4 || m == 6 || m == 9 || m == 11 {
        30
    } else {
        31
    }
}

/// A date and time of day that exist: month 1 to 12, a day of that month,
/// hour 0 to 23, minute and second 0 to 59.
pub open spec fn valid_wall_clock(y: int, m: int, d: int, h: int, mi: int, s: int) -> bool {
    &&& 1 <= m <= 12
    &&& 1 <= d <= days_in_month(y, m)
    &&& 0 <= h <= 23
    &&& 0 <= mi <= 59
    &&& 0 <= s <= 59
}

/// The number of days from 1970-01-01 to the date `y-m-d` (negative
/// before it), counting the years from March so that leap days come last.
pub open spec fn days_from_civil(y: int, m: int, d: int) -> int {
    let yy = if m <= 2 {
        y - 1
    } else {
        y
    };
    let era = yy / 400;
    let yoe = yy - era * 400;
    let mp = if m > 2 {
        m - 3
    } else {
        m + 9
    };
    let doy = (153 * mp + 2) / 5 + d - 1;
    let doe = yoe * 365 + yoe / 4 - yoe / 100 + doy;
    era * 146097 + doe - 719468
}

/// The seconds since the Unix epoch of a wall-clock time read as UTC.
pub open spec fn utc_seconds(y: int, m: int, d: int, h: int, mi: int, s: int) -> int {
    days_from_civil(y, m, d) * 86400 + h * 3600 + mi * 60 + s
}

/// `t` and `u` are less than a day apart, as a local time and the same
/// time read as UTC always are: a time zone's offset is under a day.
pub open spec fn within_a_day(t: int, u: int) -> bool {
    -86400 < t - u && t - u < 86400
}

} // verus!
