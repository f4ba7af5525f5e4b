use chrono::{Datelike, TimeZone, Timelike};
use vstd::prelude::*;

use crate::weekday::Weekday;

verus! {

/// The earliest year that a date can have.
pub const MIN_YEAR: i32 = -262143;

/// The latest year that a date can have.
pub const MAX_YEAR: i32 = 262142;

/// A date of the proleptic Gregorian calendar and a time of day, in UTC, to the second.
#[derive(Debug, Clone, Copy, PartialEq, Eq, Hash, Structural)]
pub struct UtcDateTime {
    pub year: i32,
    pub month: u32,
    pub day: u32,
    pub hour: u32,
    pub minute: u32,
    pub second: u32,
}

/// The year has a 29 February.
pub open spec fn is_leap_year(year: int) -> bool {
    year % 4 == 0 && (year % 100 != 0 || year % 400 == 0)
}

/// The number of days of a month.
pub open spec fn days_in_month(year: int, month: int) -> int {
    if month == 2 {
        if is_leap_year(year) {
            29
        } else {
            28
        }
    } else if month == 4 || month == 6 || month == 9 || month == 11 {
        30
    } else {
        31
    }
}

/// The day exists in the calendar and its year is one that a date can have.
pub open spec fn valid_date(year: int, month: int, day: int) -> bool {
    &&& MIN_YEAR <= year <= MAX_YEAR
    &&& 1 <= month <= 12
    &&& 1 <= day <= days_in_month(year, month)
}

/// The time is one that a clock shows, from 00:00:00 to 23:59:59.
pub open spec fn valid_time(hour: int, minute: int, second: int) -> bool {
    &&& 0 <= hour < 24
    &&& 0 <= minute < 60
    &&& 0 <= second < 60
}

/// The six fields make a valid date and a valid time of day.
pub open spec fn valid_fields(
    year: i32,
    month: u32,
    day: u32,
    hour: u32,
    minute: u32,
    second: u32,
) -> bool {
    valid_date(year as int, month as int, day as int) && valid_time(
        hour as int,
        minute as int,
        second as int,
    )
}

/// The place of a date in calendar order: of two valid dates the earlier has the smaller number.
pub open spec fn date_ordinal(year: int, month: int, day: int) -> int {
    (year * 12 + (month - 1)) * 31 + (day - 1)
}

/// What adding a number of seconds to a valid date and time gives: `None` when the result would
/// lie outside the years that a date can have.
pub uninterp spec fn utc_shifted(t: UtcDateTime, seconds: int) -> Option<UtcDateTime>;

/// The number of seconds from `earlier` to `later`, negative when `later` is the earlier one.
pub uninterp spec fn utc_seconds_between(later: UtcDateTime, earlier: UtcDateTime) -> int;

/// The weekday of a valid date, as its number of days since Monday.
pub uninterp spec fn utc_weekday_number(year: int, month: int, day: int) -> int;

impl UtcDateTime {
    /// The date exists in the calendar, and the time of day on the clock.
    pub open spec fn is_valid(&self) -> bool {
        &&& valid_date(self.year as int, self.month as int, self.day as int)
        &&& valid_time(self.hour as int, self.minute as int, self.second as int)
    }

    /// The seconds since midnight.
    pub open spec fn time_of_day(&self) -> int {
        self.hour * 3600 + self.minute * 60 + self.second
    }

    /// The place of the date in calendar order.
    pub open spec fn day_ordinal(&self) -> int {
        date_ordinal(self.year as int, self.month as int, self.day as int)
    }

    /// The place of a date and time in the order of time: of two valid values the earlier has
    /// the smaller number.
    pub open spec fn ordinal(&self) -> int {
        self.day_ordinal() * 86400 + self.time_of_day()
    }

    /// The same date at midnight.
    pub open spec fn midnight(&self) -> UtcDateTime {
        UtcDateTime { hour: 0, minute: 0, second: 0, ..*self }
    }

    /// The date and time with the given fields, where they make a valid date and a valid time
    /// of day.
    pub fn from_fields(
        year: i32,
        month: u32,
        day: u32,
        hour: u32,
        minute: u32,
        second: u32,
    ) -> (r: Option<UtcDateTime>)
        ensures
            r.is_some() == valid_fields(year, month, day, hour, minute, second),
            r matches Some(t) ==> t.is_valid() && t.year == year && t.month == month && t.day
                == day && t.hour == hour && t.minute == minute && t.second == second,
    {
        utc_from_fields(year, month, day, hour, minute, second)
    }

    /// Whether the fields make a valid date and a valid time of day.
    pub fn check_valid(&self) -> (r: bool)
        ensures
            r == self.is_valid(),
    {
        utc_from_fields(
            self.year,
            self.month,
            self.day,
            self.hour,
            self.minute,
            self.second,
        ).is_some()
    }

    /// The same date at midnight, computed.
    pub fn at_midnight(&self) -> (r: UtcDateTime)
        ensures
            r == self.midnight(),
    {
        UtcDateTime {
            year: self.year,
            month: self.month,
            day: self.day,
            hour: 0,
            minute: 0,
            second: 0,
        }
    }

    /// The two fall on the same day.
    pub open spec fn same_date(&self, other: &UtcDateTime) -> bool {
        self.year == other.year && self.month == other.month && self.day == other.day
    }

    /// The weekday of the date.
    pub open spec fn weekday(&self) -> Weekday {
        Weekday::from_number(
            utc_weekday_number(self.year as int, self.month as int, self.day as int),
        )
    }
}

/// Calls chrono's `TimeZone::with_ymd_and_hms` on `Utc` and reads the fields back. The contract
/// claims that chrono accepts exactly the dates of the proleptic Gregorian calendar within its
/// range of years, with a time of day below 24:00:00, and that the value it builds has the
/// fields it was given.
#[verifier::external_body]
pub(crate) fn utc_from_fields(
    year: i32,
    month: u32,
    day: u32,
    hour: u32,
    minute: u32,
    second: u32,
) -> (r: Option<UtcDateTime>)
    ensures
        r.is_some() == valid_fields(year, month, day, hour, minute, second),
        r matches Some(t) ==> t.year == year && t.month == month && t.day == day && t.hour == hour
            && t.minute == minute && t.second == second,
{
    let dt = chrono::Utc.with_ymd_and_hms(year, month, day, hour, minute, second).single()?;
    Some(
        UtcDateTime {
            year: dt.year(), month: dt.month(), day: dt.day(),
            hour: dt.hour(), minute: dt.minute(), second: dt.second(),
        },
    )
}

/// Calls chrono's `DateTime::checked_add_signed` with a `TimeDelta` of whole seconds. The
/// contract names the result and claims of it: it is a valid date and time; it lies after the
/// argument for a positive number of seconds, before it for a negative one, and is the argument
/// itself for zero; and a whole number of days moves the weekday by that number of days.
#[verifier::external_body]
pub(crate) fn utc_plus_seconds(t: UtcDateTime, seconds: i64) -> (r: Option<UtcDateTime>)
    requires
        t.is_valid(),
    ensures
        r == utc_shifted(t, seconds as int),
        r matches Some(u) ==> {
            &&& u.is_valid()
            &&& seconds > 0 ==> t.ordinal() < u.ordinal()
            &&& seconds == 0 ==> u == t
            &&& seconds < 0 ==> u.ordinal() < t.ordinal()
            &&& seconds % 86400 == 0 ==> utc_weekday_number(
                u.year as int,
                u.month as int,
                u.day as int,
            ) == (utc_weekday_number(t.year as int, t.month as int, t.day as int) + seconds
                / 86400) % 7
        },
{
    let dt = chrono::Utc.with_ymd_and_hms(t.year, t.month, t.day, t.hour, t.minute, t.second);
    let moved = dt.single()?.checked_add_signed(chrono::TimeDelta::try_seconds(seconds)?)?;
    Some(
        UtcDateTime {
            year: moved.year(), month: moved.month(), day: moved.day(),
            hour: moved.hour(), minute: moved.minute(), second: moved.second(),
        },
    )
}

/// Calls chrono's `DateTime::signed_duration_since` and `TimeDelta::num_seconds`. The contract
/// names the result and claims of it: its sign tells which of the two comes first, and adding
/// it to `earlier` gives `later`.
#[verifier::external_body]
pub(crate) fn utc_seconds_since(later: UtcDateTime, earlier: UtcDateTime) -> (r: i64)
    requires
        later.is_valid(),
        earlier.is_valid(),
    ensures
        r == utc_seconds_between(later, earlier),
        r > 0 <==> earlier.ordinal() < later.ordinal(),
        r < 0 <==> later.ordinal() < earlier.ordinal(),
        utc_shifted(earlier, r as int) == Some(later),
{
    let (a, b) = (later, earlier);
    let a = chrono::Utc.with_ymd_and_hms(a.year, a.month, a.day, a.hour, a.minute, a.second);
    let b = chrono::Utc.with_ymd_and_hms(b.year, b.month, b.day, b.hour, b.minute, b.second);
    a.unwrap().signed_duration_since(b.unwrap()).num_seconds()
}

/// Calls chrono's `Datelike::weekday` on the date. The contract names the result, as the
/// weekday's number of days since Monday.
#[verifier::external_body]
pub(crate) fn utc_weekday(year: i32, month: u32, day: u32) -> (r: Weekday)
    requires
        valid_date(year as int, month as int, day as int),
    ensures
        r.number() == utc_weekday_number(year as int, month as int, day as int),
{
    match chrono::Utc.with_ymd_and_hms(year, month, day, 0, 0, 0).unwrap().weekday() {
        chrono::Weekday::Mon => Weekday::Mon,
        chrono::Weekday::Tue => Weekday::Tue,
        chrono::Weekday::Wed => Weekday::Wed,
        chrono::Weekday::Thu => Weekday::Thu,
        chrono::Weekday::Fri => Weekday::Fri,
        chrono::Weekday::Sat => Weekday::Sat,
        chrono::Weekday::Sun => Weekday::Sun,
    }
}

} // verus!
