//! The calendar arithmetic done by `chrono`: a UTC time stamp moved by a
//! whole number of hours.

use chrono::{TimeDelta, TimeZone, Utc};
use vstd::prelude::*;

verus! {

/// The date (`%Y-%m-%d`) and time (`%H:%M:%S`) that `chrono` prints for the
/// UTC time `year-month-day hour:minute:second` moved by `hours` hours, or
/// `None` where `chrono` refuses the time stamp or the move.
pub uninterp spec fn utc_shifted(
    year: i32,
    month: u32,
    day: u32,
    hour: u32,
    minute: u32,
    second: u32,
    hours: i64,
) -> Option<(Seq<char>, Seq<char>)>;

/// A leap year of the proleptic Gregorian calendar.
pub open spec fn is_leap_year(year: int) -> bool {
    year % 4 == 0 && (year % 100 != 0 || year % 400 == 0)
}

/// The number of days of a month (1 to 12) of a year.
pub open spec fn days_in_month(year: int, month: int) -> int {
    if month == 2 {
        if is_leap_year(year) {
            29
        } else {
            28
        }
    } else if month == 4 || month == 6 || month == 9 || month == 11 {
        30
    } else {
        31
    }
}

/// A time stamp that `chrono` takes and can move by `hours`: a real date and
/// time of day in `chrono`'s range of years (-262143 to 262142), moved by at
/// most a day, where the move does not leave that range: it does not pass
/// the end of the last day of year 262142 nor the start of the first day of
/// year -262143.
pub open spec fn shift_accepted(
    year: int,
    month: int,
    day: int,
    hour: int,
    minute: int,
    second: int,
    hours: int,
) -> bool {
    &&& -262143 <= year <= 262142
    &&& 1 <= month <= 12
    &&& 1 <= day <= days_in_month(year, month)
    &&& 0 <= hour < 24
    &&& 0 <= minute < 60
    &&& 0 <= second < 60
    &&& -24 <= hours <= 24
    &&& !(year == 262142 && month == 12 && day == 31 && hour + hours >= 24)
    &&& !(year == -262143 && month == 1 && day == 1 && hour + hours < 0)
}

/// Calls `Utc.with_ymd_and_hms` (taking its single result), `TimeDelta::try_hours`,
/// `DateTime::checked_add_signed` and `DateTime::format` twice. The contract
/// claims only that the outcome is the one `utc_shifted` names for these
/// arguments, and that it is `Some` for a real date and time in range moved
/// by at most a day (`chrono` returns `None` only for an invalid date or time,
/// a year outside its range, or a result outside its range); what the value
/// is, in calendar terms, is left to `chrono`. The several calls stand
/// behind one name because their intermediate values are `chrono` types,
/// which a contract cannot read.
#[verifier::external_body]
pub(crate) fn shift_utc(
    year: i32,
    month: u32,
    day: u32,
    hour: u32,
    minute: u32,
    second: u32,
    hours: i64,
) -> (res: Option<(String, String)>)
    ensures
        res is Some <==> utc_shifted(year, month, day, hour, minute, second, hours) is Some,
        res matches Some(p) ==> utc_shifted(year, month, day, hour, minute, second, hours)
            == Some((p.0@, p.1@)),
        shift_accepted(
            year as int,
            month as int,
            day as int,
            hour as int,
            minute as int,
            second as int,
            hours as int,
        ) ==> res is Some,
{
    let start = match Utc.with_ymd_and_hms(year, month, day, hour, minute, second).single() {
        Some(t) => t,
        None => return None,
    };
    let delta = match TimeDelta::try_hours(hours) {
        Some(d) => d,
        None => return None,
    };
    match start.checked_add_signed(delta) {
        Some(t) => Some((t.format("%Y-%m-%d").to_string(), t.format("%H:%M:%S").to_string())),
        None => None,
    }
}

} // verus!
