use vstd::prelude::*;

use crate::utc_date_time::{
    days_in_month, utc_from_fields, utc_plus_seconds, utc_seconds_between, utc_seconds_since,
    utc_shifted, utc_weekday_number, valid_date, valid_time, UtcDateTime, MAX_YEAR,
};

verus! {

#[derive(Debug, Clone, Copy, PartialEq, Eq, Hash, Structural)]
pub enum SubstitutionError {
    /// A time of day was given for a whole day.
    ConstructingDateTimeBySubstitutingWholeDay,
}

/// A point in time: either a whole calendar day or an instant, both in UTC.
///
/// A whole day has no time of day. Where it has to stand among instants it stands at its
/// midnight; whatever time of day its payload carries is never read.
#[derive(Debug, Clone, Copy, PartialEq, Eq, Hash, Structural)]
pub enum DateOrDateTime {
    WholeDay(UtcDateTime),
    DateTime(UtcDateTime),
}

#[derive(Debug, Clone, Copy, PartialEq, Eq, Hash, Structural)]
pub enum DateIntersectError {
    /// The interval starts on the reference and ends before it.
    StartDateAfterEndDate,
}

/// How an interval lies with respect to a reference moment.
#[derive(Debug, Clone, Copy, PartialEq, Eq, PartialOrd, Ord, Structural)]
pub enum EventOverlap {
    FinishesPast,
    StartSameDayEndsSameDay,
    StartsSameDayEndsFuture,
    StartsPastEndsSameDay,
    StartsPastEndsFuture,
    StartsFuture,
}

/// The value of an optional field, or the inherited one.
pub open spec fn or_inherit<T>(given: Option<T>, inherited: T) -> T {
    match given {
        Some(v) => v,
        None => inherited,
    }
}

/// The month that follows `(year, month)`, as a pair of year and month.
pub open spec fn month_after(year: int, month: int) -> (int, int) {
    if month >= 12 {
        (year + 1, 1)
    } else {
        (year, month + 1)
    }
}

/// The first month, from `(year, month)` on, that has a day numbered `day`.
///
/// No two months in a row are shorter than 31 days, so for a day up to 31 this is the month
/// itself or the one after it.
pub open spec fn first_month_with_day(year: int, month: int, day: int) -> (int, int) {
    if day <= days_in_month(year, month) {
        (year, month)
    } else {
        month_after(year, month)
    }
}

/// A month that lacks a day up to the 31st is followed, in the same year, by one that has it.
pub proof fn lemma_month_after_has_day(year: int, month: int, day: int)
    requires
        1 <= month <= 12,
        1 <= day <= 31,
        day > days_in_month(year, month),
    ensures
        day <= days_in_month(month_after(year, month).0, month_after(year, month).1),
        month_after(year, month).0 == year,
{
}

/// How an interval lies with respect to a reference, each of the three given by its place in
/// an order.
pub open spec fn classify(start: int, end: int, reference: int) -> Result<
    EventOverlap,
    DateIntersectError,
> {
    if start < reference {
        if end < reference {
            Ok(EventOverlap::FinishesPast)
        } else if end == reference {
            Ok(EventOverlap::StartsPastEndsSameDay)
        } else {
            Ok(EventOverlap::StartsPastEndsFuture)
        }
    } else if start == reference {
        if end < reference {
            Err(DateIntersectError::StartDateAfterEndDate)
        } else if end == reference {
            Ok(EventOverlap::StartSameDayEndsSameDay)
        } else {
            Ok(EventOverlap::StartsSameDayEndsFuture)
        }
    } else {
        Ok(EventOverlap::StartsFuture)
    }
}

/// The place of a date in calendar order, computed.
pub fn date_position(t: &UtcDateTime) -> (r: i64)
    ensures
        r == t.day_ordinal(),
        -1_000_000_000_000 < r < 1_000_000_000_000,
{
    (t.year as i64 * 12 + (t.month as i64 - 1)) * 31 + (t.day as i64 - 1)
}

/// The place of a date and time in the order of time, computed.
pub fn time_position(t: &UtcDateTime) -> (r: i64)
    ensures
        r == t.ordinal(),
{
    date_position(t) * 86400 + (t.hour as i64 * 3600 + t.minute as i64 * 60 + t.second as i64)
}

/// How an interval lies with respect to a reference, computed from their places in an order.
pub fn classify_positions(start: i64, end: i64, reference: i64) -> (r: Result<
    EventOverlap,
    DateIntersectError,
>)
    ensures
        r == classify(start as int, end as int, reference as int),
{
    if start < reference {
        if end < reference {
            Ok(EventOverlap::FinishesPast)
        } else if end == reference {
            Ok(EventOverlap::StartsPastEndsSameDay)
        } else {
            Ok(EventOverlap::StartsPastEndsFuture)
        }
    } else if start == reference {
        if end < reference {
            Err(DateIntersectError::StartDateAfterEndDate)
        } else if end == reference {
            Ok(EventOverlap::StartSameDayEndsSameDay)
        } else {
            Ok(EventOverlap::StartsSameDayEndsFuture)
        }
    } else {
        Ok(EventOverlap::StartsFuture)
    }
}

impl DateOrDateTime {
    /// The date and time that the value carries, whichever variant it is.
    pub open spec fn payload(self) -> UtcDateTime {
        match self {
            DateOrDateTime::WholeDay(d) => d,
            DateOrDateTime::DateTime(dt) => dt,
        }
    }

    /// The carried date is a valid one, and so is the carried time of day.
    pub open spec fn is_valid(self) -> bool {
        self.payload().is_valid()
    }

    /// The instant at which the value stands among instants: a whole day at its midnight.
    pub open spec fn instant(self) -> UtcDateTime {
        match self {
            DateOrDateTime::WholeDay(d) => d.midnight(),
            DateOrDateTime::DateTime(dt) => dt,
        }
    }

    /// The same kind of value at another date and time: a whole day keeps no time of day.
    pub open spec fn with_payload(self, t: UtcDateTime) -> DateOrDateTime {
        match self {
            DateOrDateTime::WholeDay(_) => DateOrDateTime::WholeDay(t.midnight()),
            DateOrDateTime::DateTime(_) => DateOrDateTime::DateTime(t),
        }
    }

    /// The same kind of value on another day, at the time of day of `instant()`.
    pub open spec fn on_date(self, year: int, month: int, day: int) -> DateOrDateTime {
        self.with_payload(
            UtcDateTime {
                year: year as i32,
                month: month as u32,
                day: day as u32,
                ..self.instant()
            },
        )
    }

    /// `self` stands before `other` in time.
    pub open spec fn is_before(self, other: DateOrDateTime) -> bool {
        self.instant().ordinal() < other.instant().ordinal()
    }

    pub open spec fn substitute_spec(
        self,
        year: Option<i32>,
        month: Option<u32>,
        day: Option<u32>,
        hour: Option<u32>,
        minute: Option<u32>,
        second: Option<u32>,
    ) -> Result<DateOrDateTime, SubstitutionError> {
        let p = self.payload();
        match self {
            DateOrDateTime::WholeDay(_) => if hour is Some || minute is Some || second is Some {
                Err(SubstitutionError::ConstructingDateTimeBySubstitutingWholeDay)
            } else {
                Ok(
                    DateOrDateTime::WholeDay(
                        UtcDateTime {
                            year: or_inherit(year, p.year),
                            month: or_inherit(month, p.month),
                            day: or_inherit(day, p.day),
                            hour: 0,
                            minute: 0,
                            second: 0,
                        },
                    ),
                )
            },
            DateOrDateTime::DateTime(_) => Ok(
                DateOrDateTime::DateTime(
                    UtcDateTime {
                        year: or_inherit(year, p.year),
                        month: or_inherit(month, p.month),
                        day: or_inherit(day, p.day),
                        hour: or_inherit(hour, p.hour),
                        minute: or_inherit(minute, p.minute),
                        second: or_inherit(second, p.second),
                    },
                ),
            ),
        }
    }

    /// Replaces the fields that are given and keeps the others.
    ///
    /// A whole day takes no time of day: giving it one is an error. The date that results has
    /// to exist, and for an instant the time of day too.
    pub fn substitute(
        self,
        year: Option<i32>,
        month: Option<u32>,
        day: Option<u32>,
        hour: Option<u32>,
        minute: Option<u32>,
        second: Option<u32>,
    ) -> (r: Result<Self, SubstitutionError>)
        requires
            valid_date(
                or_inherit(year, self.payload().year) as int,
                or_inherit(month, self.payload().month) as int,
                or_inherit(day, self.payload().day) as int,
            ),
            self is DateTime ==> valid_time(
                or_inherit(hour, self.payload().hour) as int,
                or_inherit(minute, self.payload().minute) as int,
                or_inherit(second, self.payload().second) as int,
            ),
        ensures
            r == self.substitute_spec(year, month, day, hour, minute, second),
            r matches Ok(m) ==> m.is_valid(),
    {
        let new_year = match year {
            Some(y) => y,
            None => self.year(),
        };
        let new_month = match month {
            Some(m) => m,
            None => self.month(),
        };
        let new_day = match day {
            Some(d) => d,
            None => self.day(),
        };
        match self {
            DateOrDateTime::WholeDay(_) => {
                if hour.is_some() || minute.is_some() || second.is_some() {
                    return Err(SubstitutionError::ConstructingDateTimeBySubstitutingWholeDay);
                }
                let date = utc_from_fields(new_year, new_month, new_day, 0, 0, 0);
                Ok(DateOrDateTime::WholeDay(date.unwrap()))
            },
            DateOrDateTime::DateTime(dt) => {
                let new_hour = match hour {
                    Some(h) => h,
                    None => dt.hour,
                };
                let new_minute = match minute {
                    Some(m) => m,
                    None => dt.minute,
                };
                let new_second = match second {
                    Some(s) => s,
                    None => dt.second,
                };
                let date_time = utc_from_fields(
                    new_year,
                    new_month,
                    new_day,
                    new_hour,
                    new_minute,
                    new_second,
                );
                Ok(DateOrDateTime::DateTime(date_time.unwrap()))
            },
        }
    }

    /// The date of `self` at the time of day of `time`. A whole day has no time of day to
    /// give, and leaves `self` as it is.
    pub open spec fn substitute_time_with_spec(self, time: DateOrDateTime) -> DateOrDateTime {
        match time {
            DateOrDateTime::WholeDay(_) => self,
            DateOrDateTime::DateTime(dt) => DateOrDateTime::DateTime(
                UtcDateTime {
                    hour: dt.hour,
                    minute: dt.minute,
                    second: dt.second,
                    ..self.payload()
                },
            ),
        }
    }

    /// Takes the time of day from `time`, where it has one, and keeps the date.
    pub fn substitute_time_with(self, time: DateOrDateTime) -> (r: Self)
        ensures
            r == self.substitute_time_with_spec(time),
            self.is_valid() && time.is_valid() ==> r.is_valid(),
    {
        match time {
            DateOrDateTime::WholeDay(_) => self,
            DateOrDateTime::DateTime(dt) => DateOrDateTime::DateTime(
                UtcDateTime {
                    year: self.year(),
                    month: self.month(),
                    day: self.day(),
                    hour: dt.hour,
                    minute: dt.minute,
                    second: dt.second,
                },
            ),
        }
    }

    pub fn equals_date(self, date: UtcDateTime) -> (r: bool)
        ensures
            r == (self.payload() == date),
    {
        match self {
            DateOrDateTime::WholeDay(d) => date == d,
            DateOrDateTime::DateTime(dt) => date == dt,
        }
    }

    pub fn equals_date_time(self, date_time: UtcDateTime) -> (r: bool)
        ensures
            r == (self.payload() == date_time),
    {
        match self {
            DateOrDateTime::WholeDay(d) => d == date_time,
            DateOrDateTime::DateTime(dt) => dt == date_time,
        }
    }

    /// The month that lies `increment` months after the month of `self`, or the first one
    /// after that which has the day of `self`; year first, then month.
    pub open spec fn inc_month_target(self, increment: int) -> (int, int) {
        let p = self.payload();
        let months = p.month - 1 + increment;
        first_month_with_day(p.year + months / 12, months % 12 + 1, p.day as int)
    }

    pub open spec fn inc_month_spec(self, increment: int) -> DateOrDateTime {
        let target = self.inc_month_target(increment);
        self.on_date(target.0, target.1, self.payload().day as int)
    }

    /// Moves a number of months ahead and keeps the day of the month.
    ///
    /// Where the month reached has no such day, the result lies in the first later month that
    /// has it: the day is never cut down to the month's end.
    pub fn inc_month(self, increment: u32) -> (r: Self)
        requires
            self.is_valid(),
            self.payload().year + (self.payload().month - 1 + increment) / 12 <= MAX_YEAR,
        ensures
            r == self.inc_month_spec(increment as int),
            r.is_valid(),
    {
        let months: i64 = self.month() as i64 - 1 + increment as i64;
        let mut year: i64 = self.year() as i64 + months / 12;
        let mut month: i64 = months % 12 + 1;
        let day = self.day();
        let ghost first_year = year as int;
        let ghost first_month = month as int;

        let mut date = utc_from_fields(year as i32, month as u32, day, 0, 0, 0);
        while date.is_none()
            invariant
                self.is_valid(),
                day == self.payload().day,
                first_year <= MAX_YEAR,
                1 <= first_month <= 12,
                (year as int, month as int) == (first_year, first_month) || ((year as int, month as int)
                    == month_after(first_year, first_month) && day > days_in_month(
                    first_year,
                    first_month,
                )),
                self.payload().year <= first_year,
                date == utc_from_fields_spec(year as int, month as int, day, 0, 0, 0),
            decreases
                    (if (year as int, month as int) == (first_year, first_month) {
                        1int
                    } else {
                        0int
                    }),
        {
            proof {
                lemma_month_after_has_day(first_year, first_month, day as int);
            }
            month += 1;
            if month > 12 {
                month = 1;
                year += 1;
            }
            date = utc_from_fields(year as i32, month as u32, day, 0, 0, 0);
        }
        let date = date.unwrap();

        match self {
            DateOrDateTime::WholeDay(_) => DateOrDateTime::WholeDay(date),
            DateOrDateTime::DateTime(dt) => {
                let date_time = utc_from_fields(
                    date.year,
                    date.month,
                    date.day,
                    dt.hour,
                    dt.minute,
                    dt.second,
                );
                DateOrDateTime::DateTime(date_time.unwrap())
            },
        }
    }

    /// The same day and time of day `increment` years later. The one day that may be missing
    /// there, 29 February, becomes 1 March.
    pub open spec fn inc_year_spec(self, increment: int) -> DateOrDateTime {
        let p = self.payload();
        let year = p.year + increment;
        if p.day <= days_in_month(year, p.month as int) {
            self.on_date(year, p.month as int, p.day as int)
        } else {
            self.on_date(year, p.month + 1, 1)
        }
    }

    /// Moves a number of years ahead and keeps month, day and time of day.
    pub fn inc_year(&self, increment: u32) -> (r: DateOrDateTime)
        requires
            self.is_valid(),
            self.payload().year + increment <= MAX_YEAR,
        ensures
            r == self.inc_year_spec(increment as int),
            r.is_valid(),
    {
        let year: i32 = (self.year() as i64 + increment as i64) as i32;
        let date = match utc_from_fields(year, self.month(), self.day(), 0, 0, 0) {
            Some(date) => date,
            None => utc_from_fields(year, self.month() + 1, 1, 0, 0, 0).unwrap(),
        };
        match self {
            DateOrDateTime::WholeDay(_) => DateOrDateTime::WholeDay(date),
            DateOrDateTime::DateTime(dt) => {
                let date_time = utc_from_fields(
                    date.year,
                    date.month,
                    date.day,
                    dt.hour,
                    dt.minute,
                    dt.second,
                );
                DateOrDateTime::DateTime(date_time.unwrap())
            },
        }
    }

    /// Whether the carried date and time of day are valid ones.
    pub fn check_valid(&self) -> (r: bool)
        ensures
            r == self.is_valid(),
    {
        match self {
            DateOrDateTime::WholeDay(d) => d.check_valid(),
            DateOrDateTime::DateTime(dt) => dt.check_valid(),
        }
    }

    /// The instant at which the value stands among instants, computed.
    pub fn to_instant(&self) -> (r: UtcDateTime)
        ensures
            r == self.instant(),
    {
        match self {
            DateOrDateTime::WholeDay(d) => UtcDateTime {
                year: d.year,
                month: d.month,
                day: d.day,
                hour: 0,
                minute: 0,
                second: 0,
            },
            DateOrDateTime::DateTime(dt) => *dt,
        }
    }

    /// Whether `self` stands before `other` in time.
    pub fn before(&self, other: &DateOrDateTime) -> (r: bool)
        ensures
            r == self.is_before(*other),
    {
        time_position(&self.to_instant()) < time_position(&other.to_instant())
    }

    /// Whether `self` stands after `other` in time.
    pub fn after(&self, other: &DateOrDateTime) -> (r: bool)
        ensures
            r == other.is_before(*self),
    {
        time_position(&other.to_instant()) < time_position(&self.to_instant())
    }

    /// Whether `self` and `other` fall on the same calendar day.
    pub fn on_same_date(&self, other: &DateOrDateTime) -> (r: bool)
        ensures
            r == self.payload().same_date(&other.payload()),
    {
        self.year() == other.year() && self.month() == other.month() && self.day() == other.day()
    }

    /// How the interval from `dt_start` to `dt_end` lies with respect to `self`.
    ///
    /// A whole day looks at the dates of the two ends only. An instant looks at the ends as
    /// instants, a whole day among them standing at its midnight.
    pub open spec fn intersects_spec(
        self,
        dt_start: DateOrDateTime,
        dt_end: DateOrDateTime,
    ) -> Result<EventOverlap, DateIntersectError> {
        match self {
            DateOrDateTime::WholeDay(day) => classify(
                dt_start.payload().day_ordinal(),
                dt_end.payload().day_ordinal(),
                day.day_ordinal(),
            ),
            DateOrDateTime::DateTime(dt) => classify(
                dt_start.instant().ordinal(),
                dt_end.instant().ordinal(),
                dt.ordinal(),
            ),
        }
    }

    /// Classifies the interval from `dt_start` to `dt_end` against `self`.
    ///
    /// It fails exactly when the start falls on `self` and the end before it.
    pub fn intersects(self, dt_start: DateOrDateTime, dt_end: DateOrDateTime) -> (r: Result<
        EventOverlap,
        DateIntersectError,
    >)
        ensures
            r == self.intersects_spec(dt_start, dt_end),
    {
        match self {
            DateOrDateTime::WholeDay(day) => classify_positions(
                date_position(&dt_start.date()),
                date_position(&dt_end.date()),
                date_position(&day),
            ),
            DateOrDateTime::DateTime(dt) => classify_positions(
                time_position(&dt_start.to_instant()),
                time_position(&dt_end.to_instant()),
                time_position(&dt),
            ),
        }
    }

    /// A moment of the same kind that carries `t`.
    pub open spec fn carrying(self, t: UtcDateTime) -> DateOrDateTime {
        match self {
            DateOrDateTime::WholeDay(_) => DateOrDateTime::WholeDay(t),
            DateOrDateTime::DateTime(_) => DateOrDateTime::DateTime(t),
        }
    }

    /// What adding a number of seconds gives: the carried date and time moves, the kind stays.
    pub open spec fn shifted(self, seconds: int) -> Option<DateOrDateTime> {
        match utc_shifted(self.payload(), seconds) {
            Some(t) => Some(self.carrying(t)),
            None => None,
        }
    }

    /// Adds a number of seconds, negative to go back. `None` where the result would lie
    /// outside the years that a date can have.
    pub fn plus_seconds(self, seconds: i64) -> (r: Option<Self>)
        requires
            self.is_valid(),
        ensures
            r == self.shifted(seconds as int),
            r matches Some(m) ==> {
                &&& m.is_valid()
                &&& seconds > 0 ==> self.payload().ordinal() < m.payload().ordinal()
                &&& seconds == 0 ==> m == self
                &&& seconds < 0 ==> m.payload().ordinal() < self.payload().ordinal()
                &&& seconds % 86400 == 0 ==> utc_weekday_number(
                    m.payload().year as int,
                    m.payload().month as int,
                    m.payload().day as int,
                ) == (utc_weekday_number(
                    self.payload().year as int,
                    self.payload().month as int,
                    self.payload().day as int,
                ) + seconds / 86400) % 7
            },
    {
        match self {
            DateOrDateTime::WholeDay(day) => match utc_plus_seconds(day, seconds) {
                Some(t) => Some(DateOrDateTime::WholeDay(t)),
                None => None,
            },
            DateOrDateTime::DateTime(dt) => match utc_plus_seconds(dt, seconds) {
                Some(t) => Some(DateOrDateTime::DateTime(t)),
                None => None,
            },
        }
    }

    /// Takes a number of seconds away.
    pub fn minus_seconds(self, seconds: i64) -> (r: Option<Self>)
        requires
            self.is_valid(),
            seconds > i64::MIN,
        ensures
            r == self.shifted(-seconds),
            r matches Some(m) ==> m.is_valid(),
    {
        self.plus_seconds(-seconds)
    }

    /// The seconds from `rhs` to `self`, each taken as an instant.
    pub fn seconds_since(self, rhs: DateOrDateTime) -> (r: i64)
        requires
            self.is_valid(),
            rhs.is_valid(),
        ensures
            r == utc_seconds_between(self.instant(), rhs.instant()),
            r > 0 <==> rhs.is_before(self),
            r < 0 <==> self.is_before(rhs),
            utc_shifted(rhs.instant(), r as int) == Some(self.instant()),
    {
        utc_seconds_since(self.to_instant(), rhs.to_instant())
    }

    /// The same time of day on the next day.
    pub fn succ_day(&self) -> (r: Option<DateOrDateTime>)
        requires
            self.is_valid(),
        ensures
            r == self.shifted(86400),
            r matches Some(m) ==> m.is_valid() && self.payload().ordinal() < m.payload().ordinal(),
    {
        self.plus_seconds(86400)
    }

    pub fn date(self) -> (r: UtcDateTime)
        ensures
            r == self.payload(),
    {
        match self {
            DateOrDateTime::WholeDay(d) => d,
            DateOrDateTime::DateTime(dt) => dt,
        }
    }

    pub fn year(&self) -> (r: i32)
        ensures
            r == self.payload().year,
    {
        match self {
            DateOrDateTime::WholeDay(d) => d.year,
            DateOrDateTime::DateTime(d) => d.year,
        }
    }

    pub fn month(&self) -> (r: u32)
        ensures
            r == self.payload().month,
    {
        match self {
            DateOrDateTime::WholeDay(d) => d.month,
            DateOrDateTime::DateTime(d) => d.month,
        }
    }

    pub fn day(&self) -> (r: u32)
        ensures
            r == self.payload().day,
    {
        match self {
            DateOrDateTime::WholeDay(d) => d.day,
            DateOrDateTime::DateTime(d) => d.day,
        }
    }

    /// The hour of the day; that of a whole day is 0.
    pub fn hour(&self) -> (r: u32)
        ensures
            r == self.instant().hour,
            self is WholeDay ==> r == 0,
    {
        match self {
            DateOrDateTime::WholeDay(_d) => 0,
            DateOrDateTime::DateTime(d) => d.hour,
        }
    }

    /// The minute of the hour; that of a whole day is 0.
    pub fn minute(&self) -> (r: u32)
        ensures
            r == self.instant().minute,
            self is WholeDay ==> r == 0,
    {
        match self {
            DateOrDateTime::WholeDay(_d) => 0,
            DateOrDateTime::DateTime(d) => d.minute,
        }
    }

    /// The second of the minute; that of a whole day is 0.
    pub fn second(&self) -> (r: u32)
        ensures
            r == self.instant().second,
            self is WholeDay ==> r == 0,
    {
        match self {
            DateOrDateTime::WholeDay(_d) => 0,
            DateOrDateTime::DateTime(d) => d.second,
        }
    }

    pub fn as_datetime(&self) -> (r: UtcDateTime)
        ensures
            r == self.payload(),
    {
        match self {
            DateOrDateTime::WholeDay(day) => *day,
            DateOrDateTime::DateTime(dt) => *dt,
        }
    }
}

/// A moment taken as the start and the end of an interval, and as the reference too, starts
/// and ends on the day of the reference.
pub proof fn lemma_intersects_itself(m: DateOrDateTime)
    ensures
        m.intersects_spec(m, m) == Ok::<EventOverlap, DateIntersectError>(
            EventOverlap::StartSameDayEndsSameDay,
        ),
{
}

/// The classification fails exactly for an interval that starts on the reference and ends
/// before it: on the reference's day and before that day for a whole day, at the reference's
/// instant and before that instant for an instant.
pub proof fn lemma_intersects_fails_on_inverted_interval(
    reference: DateOrDateTime,
    dt_start: DateOrDateTime,
    dt_end: DateOrDateTime,
)
    ensures
        reference is WholeDay ==> (reference.intersects_spec(dt_start, dt_end) is Err <==> (
        dt_start.payload().day_ordinal() == reference.payload().day_ordinal()
            && dt_end.payload().day_ordinal() < reference.payload().day_ordinal())),
        reference is DateTime ==> (reference.intersects_spec(dt_start, dt_end) is Err <==> (
        dt_start.instant().ordinal() == reference.instant().ordinal() && dt_end.is_before(
            reference,
        ))),
        reference.intersects_spec(dt_start, dt_end) is Err ==> reference.intersects_spec(
            dt_start,
            dt_end,
        ) == Err::<EventOverlap, DateIntersectError>(DateIntersectError::StartDateAfterEndDate),
{
}

/// A whole day has no time of day: hour, minute and second are 0.
pub proof fn lemma_whole_day_has_no_time_of_day(m: DateOrDateTime)
    requires
        m is WholeDay,
    ensures
        m.instant().hour == 0,
        m.instant().minute == 0,
        m.instant().second == 0,
{
}

/// For a day of the month up to the 28th, twelve months ahead is one year ahead.
pub proof fn lemma_twelve_months_are_one_year(m: DateOrDateTime)
    requires
        m.is_valid(),
        m.payload().day <= 28,
    ensures
        m.inc_month_spec(12) == m.inc_year_spec(1),
        m.inc_month_spec(12).payload().same_date(&m.inc_year_spec(1).payload()),
{
}

/// The order of moments is total: of two moments one stands before the other, or they stand
/// at the same place in time; never both; and what stands before an earlier moment stands
/// before the later one too.
pub proof fn lemma_order_is_total(a: DateOrDateTime, b: DateOrDateTime, c: DateOrDateTime)
    ensures
        a.is_before(b) || b.is_before(a) || a.instant().ordinal() == b.instant().ordinal(),
        !(a.is_before(b) && b.is_before(a)),
        a.is_before(b) && b.is_before(c) ==> a.is_before(c),
        a.is_valid() && b.is_valid() && a.instant().ordinal() == b.instant().ordinal()
            ==> a.instant() == b.instant(),
{
    if a.is_valid() && b.is_valid() {
        lemma_ordinal_orders_by_fields(a.instant(), b.instant());
    }
}

/// Arithmetic keeps the kind of a moment: a whole day stays a whole day and an instant an
/// instant, whether fields are replaced, months or years are added, or seconds.
pub proof fn lemma_arithmetic_keeps_the_kind(
    m: DateOrDateTime,
    year: Option<i32>,
    month: Option<u32>,
    day: Option<u32>,
    hour: Option<u32>,
    minute: Option<u32>,
    second: Option<u32>,
    increment: int,
    seconds: int,
)
    ensures
        m.substitute_spec(year, month, day, hour, minute, second) matches Ok(r) ==> (r is WholeDay
            <==> m is WholeDay),
        m.inc_month_spec(increment) is WholeDay <==> m is WholeDay,
        m.inc_year_spec(increment) is WholeDay <==> m is WholeDay,
        m.shifted(seconds) matches Some(r) ==> (r is WholeDay <==> m is WholeDay),
{
}

/// Months ahead and years ahead are later: one month or more, or one year or more, from a
/// valid moment leads, within the years that a date can have, to a valid moment that stands
/// after it.
pub proof fn lemma_months_and_years_lead_forward(m: DateOrDateTime, increment: int)
    requires
        m.is_valid(),
        1 <= increment,
    ensures
        m.payload().year + (m.payload().month - 1 + increment) / 12 <= MAX_YEAR ==> m.inc_month_spec(
            increment,
        ).is_valid() && m.payload().ordinal() < m.inc_month_spec(increment).payload().ordinal(),
        m.payload().year + increment <= MAX_YEAR ==> m.inc_year_spec(increment).is_valid()
            && m.payload().ordinal() < m.inc_year_spec(increment).payload().ordinal(),
{
    let p = m.payload();
    let months = p.month - 1 + increment;
    if day_missing(p.year + months / 12, months % 12 + 1, p.day as int) {
        lemma_month_after_has_day(p.year + months / 12, months % 12 + 1, p.day as int);
    }
}

/// The month has no day numbered `day`.
pub open spec fn day_missing(year: int, month: int, day: int) -> bool {
    day > days_in_month(year, month)
}

/// Of two valid dates and times, the one with the smaller place in the order of time is the
/// one that comes first when year, month, day, hour, minute and second are compared in turn.
pub proof fn lemma_ordinal_orders_by_fields(a: UtcDateTime, b: UtcDateTime)
    requires
        a.is_valid(),
        b.is_valid(),
    ensures
        a.ordinal() == b.ordinal() <==> a == b,
        a.year < b.year ==> a.ordinal() < b.ordinal(),
        a.year == b.year && a.month < b.month ==> a.ordinal() < b.ordinal(),
        a.year == b.year && a.month == b.month && a.day < b.day ==> a.ordinal() < b.ordinal(),
        a.same_date(&b) ==> (a.ordinal() < b.ordinal() <==> a.time_of_day() < b.time_of_day()),
{
}

/// What `utc_from_fields` returns, for the fields of a loop that holds them as wider integers.
pub open spec fn utc_from_fields_spec(
    year: int,
    month: int,
    day: u32,
    hour: u32,
    minute: u32,
    second: u32,
) -> Option<UtcDateTime> {
    if valid_date(year, month, day as int) && valid_time(
        hour as int,
        minute as int,
        second as int,
    ) {
        Some(UtcDateTime { year: year as i32, month: month as u32, day, hour, minute, second })
    } else {
        None
    }
}

} // verus!
