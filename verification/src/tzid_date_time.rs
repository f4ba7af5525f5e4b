use chrono::{Datelike, TimeZone, Timelike};
use vstd::prelude::*;
use vstd::string::StrSliceExecFns;

use crate::date_or_date_time::DateOrDateTime;
use crate::date_time_text::{
    parse_date_text, parse_date_time_text, read_date, read_date_time, DateTimeParseError,
};
use crate::text::{chars_of, has_prefix, pieces, span_has_prefix, split_on, split_spans, Span};
use crate::utc_date_time::UtcDateTime;

verus! {

#[derive(Debug, Clone, Copy, PartialEq, Eq, Hash, Structural)]
pub enum TzIdDateTimeFormatError {
    /// The date or the date and time is malformed or missing.
    ParseIntError(DateTimeParseError),
    /// The local time comes twice in the zone, or not at all.
    AmbiguousTimeZone,
    /// The text begins neither with `TZID=` nor with `VALUE=DATE:`.
    MissingTZIDToken,
    /// No time zone has the name.
    UnknownTimeZone,
}

/// A moment together with the name of the time zone in which it was written.
#[derive(Debug, Clone, PartialEq, Eq)]
pub struct TzIdDateTime {
    pub time_zone: String,
    pub date_time: DateOrDateTime,
}

pub struct TzIdDateTimeView {
    pub time_zone: Seq<char>,
    pub date_time: DateOrDateTime,
}

impl View for TzIdDateTime {
    type V = TzIdDateTimeView;

    open spec fn view(&self) -> TzIdDateTimeView {
        TzIdDateTimeView { time_zone: self.time_zone@, date_time: self.date_time }
    }
}

/// What a local date and time is in a named time zone.
#[derive(Debug, Clone, Copy, PartialEq, Eq, Hash, Structural)]
pub enum ZoneTime {
    /// No time zone has the name.
    UnknownZone,
    /// The zone's clocks skip this local time.
    NoSuchTime,
    /// The zone's clocks show this local time twice.
    Ambiguous,
    /// The one instant, in UTC, at which the zone's clocks show this local time.
    Single(UtcDateTime),
}

/// What a local date and time is in the time zone of the given name, by the time zone
/// database that the library is built with.
pub uninterp spec fn zone_local_time(zone: Seq<char>, local: UtcDateTime) -> ZoneTime;

/// Calls chrono-tz's `Tz::from_str` on the name, chrono's `TimeZone::with_ymd_and_hms` on the
/// zone found, and `DateTime::with_timezone` to carry the result over to UTC. The contract
/// names the result, and claims that an instant that comes back is a valid date and time.
#[verifier::external_body]
pub(crate) fn resolve_in_zone(zone: &str, local: UtcDateTime) -> (r: ZoneTime)
    requires
        local.is_valid(),
    ensures
        r == zone_local_time(zone@, local),
        r matches ZoneTime::Single(t) ==> t.is_valid(),
{
    let Ok(tz) = zone.parse::<chrono_tz::Tz>() else { return ZoneTime::UnknownZone };
    let l = local;
    match tz.with_ymd_and_hms(l.year, l.month, l.day, l.hour, l.minute, l.second) {
        chrono::MappedLocalTime::None => ZoneTime::NoSuchTime,
        chrono::MappedLocalTime::Ambiguous(_, _) => ZoneTime::Ambiguous,
        chrono::MappedLocalTime::Single(d) => {
            let u = d.with_timezone(&chrono::Utc);
            let (year, month, day) = (u.year(), u.month(), u.day());
            let (hour, minute, second) = (u.hour(), u.minute(), u.second());
            ZoneTime::Single(UtcDateTime { year, month, day, hour, minute, second })
        },
    }
}

/// What a local date and time in a named zone gives: the instant in UTC, together with the
/// zone's name.
pub open spec fn in_zone(zone: Seq<char>, found: ZoneTime) -> Result<
    TzIdDateTimeView,
    TzIdDateTimeFormatError,
> {
    match found {
        ZoneTime::Single(t) => Ok(
            TzIdDateTimeView { time_zone: zone, date_time: DateOrDateTime::DateTime(t) },
        ),
        ZoneTime::UnknownZone => Err(TzIdDateTimeFormatError::UnknownTimeZone),
        ZoneTime::NoSuchTime => Err(TzIdDateTimeFormatError::AmbiguousTimeZone),
        ZoneTime::Ambiguous => Err(TzIdDateTimeFormatError::AmbiguousTimeZone),
    }
}

/// What a moment's text means that names its time zone.
///
/// It is `TZID=`, a zone's name, `:` and a local `YYYYMMDDTHHMMSS`, which is an instant; or
/// `VALUE=DATE:` and `YYYYMMDD`, which is a whole day, held as written under the zone `UTC`.
pub open spec fn parse_tzid_date_time(line: Seq<char>) -> Result<
    TzIdDateTimeView,
    TzIdDateTimeFormatError,
> {
    if has_prefix(line, "TZID="@) {
        let tokens = split_on(line.subrange("TZID="@.len() as int, line.len() as int), ':');
        if tokens.len() < 2 {
            Err(TzIdDateTimeFormatError::ParseIntError(DateTimeParseError::InvalidFormat))
        } else {
            match parse_date_time_text(tokens[1]) {
                Err(e) => Err(TzIdDateTimeFormatError::ParseIntError(e)),
                Ok(local) => in_zone(tokens[0], zone_local_time(tokens[0], local)),
            }
        }
    } else if has_prefix(line, "VALUE=DATE:"@) {
        match parse_date_text(line.subrange("VALUE=DATE:"@.len() as int, line.len() as int)) {
            Err(e) => Err(TzIdDateTimeFormatError::ParseIntError(e)),
            Ok(date) => Ok(
                TzIdDateTimeView { time_zone: "UTC"@, date_time: DateOrDateTime::WholeDay(date) },
            ),
        }
    } else {
        Err(TzIdDateTimeFormatError::MissingTZIDToken)
    }
}

pub open spec fn tzid_result_view(r: Result<TzIdDateTime, TzIdDateTimeFormatError>) -> Result<
    TzIdDateTimeView,
    TzIdDateTimeFormatError,
> {
    match r {
        Ok(t) => Ok(t@),
        Err(e) => Err(e),
    }
}

/// Gives a resolved local time its zone's name.
pub fn zone_time_to_moment(zone: &str, found: ZoneTime) -> (r: Result<
    TzIdDateTime,
    TzIdDateTimeFormatError,
>)
    ensures
        tzid_result_view(r) == in_zone(zone@, found),
{
    match found {
        ZoneTime::Single(t) => Ok(
            TzIdDateTime { time_zone: zone.to_owned(), date_time: DateOrDateTime::DateTime(t) },
        ),
        ZoneTime::UnknownZone => Err(TzIdDateTimeFormatError::UnknownTimeZone),
        ZoneTime::NoSuchTime => Err(TzIdDateTimeFormatError::AmbiguousTimeZone),
        ZoneTime::Ambiguous => Err(TzIdDateTimeFormatError::AmbiguousTimeZone),
    }
}

impl TzIdDateTime {
    /// An instant in UTC, under the zone `UTC`.
    pub fn from_utc(date_time: UtcDateTime) -> (r: Self)
        ensures
            r@ == (TzIdDateTimeView {
                time_zone: "UTC"@,
                date_time: DateOrDateTime::DateTime(date_time),
            }),
    {
        Self { time_zone: "UTC".to_owned(), date_time: DateOrDateTime::DateTime(date_time) }
    }

    /// Reads a moment that names its time zone, such as
    /// `TZID=Europe/Rome:20220106T154000` or `VALUE=DATE:20220106`.
    pub fn parse(line: &str) -> (r: Result<TzIdDateTime, TzIdDateTimeFormatError>)
        ensures
            tzid_result_view(r) == parse_tzid_date_time(line@),
            r matches Ok(t) ==> t.date_time.is_valid(),
    {
        let chars = chars_of(line);
        let whole = Span { start: 0, end: chars.len() };
        assert(whole.of(chars@) =~= line@);
        if span_has_prefix(&chars, whole, "TZID=") {
            let rest = Span { start: "TZID=".unicode_len(), end: chars.len() };
            assert(rest.of(chars@) =~= line@.subrange("TZID="@.len() as int, line@.len() as int));
            let tokens = split_spans(&chars, rest, ':');
            let ghost all = pieces(chars@, tokens@);
            if tokens.len() < 2 {
                return Err(
                    TzIdDateTimeFormatError::ParseIntError(DateTimeParseError::InvalidFormat),
                );
            }
            assert(all[0] == tokens@[0].of(chars@));
            assert(all[1] == tokens@[1].of(chars@));
            match read_date_time(&chars, tokens[1]) {
                Err(e) => Err(TzIdDateTimeFormatError::ParseIntError(e)),
                Ok(local) => {
                    let zone = line.substring_char(tokens[0].start, tokens[0].end);
                    zone_time_to_moment(zone, resolve_in_zone(zone, local))
                },
            }
        } else if span_has_prefix(&chars, whole, "VALUE=DATE:") {
            let rest = Span { start: "VALUE=DATE:".unicode_len(), end: chars.len() };
            assert(rest.of(chars@) =~= line@.subrange(
                "VALUE=DATE:"@.len() as int,
                line@.len() as int,
            ));
            match read_date(&chars, rest) {
                Err(e) => Err(TzIdDateTimeFormatError::ParseIntError(e)),
                Ok(date) => Ok(
                    TzIdDateTime {
                        time_zone: "UTC".to_owned(),
                        date_time: DateOrDateTime::WholeDay(date),
                    },
                ),
            }
        } else {
            Err(TzIdDateTimeFormatError::MissingTZIDToken)
        }
    }
}

impl<'a> TryFrom<&'a str> for TzIdDateTime {
    type Error = TzIdDateTimeFormatError;

    /// Reads a moment that names its time zone, as [`TzIdDateTime::parse`] does.
    fn try_from(line: &'a str) -> (r: Result<Self, Self::Error>)
        ensures
            tzid_result_view(r) == parse_tzid_date_time(line@),
            r matches Ok(t) ==> t.date_time.is_valid(),
    {
        TzIdDateTime::parse(line)
    }
}

impl<'a> vstd::std_specs::convert::TryFromSpecImpl<&'a str> for TzIdDateTime {
    open spec fn obeys_try_from_spec() -> bool {
        false
    }

    open spec fn try_from_spec(line: &'a str) -> Result<Self, Self::Error> {
        arbitrary()
    }
}

impl core::str::FromStr for TzIdDateTime {
    type Err = TzIdDateTimeFormatError;

    /// Reads a moment that names its time zone, as [`TzIdDateTime::parse`] does.
    fn from_str(s: &str) -> (r: Result<Self, Self::Err>)
        ensures
            tzid_result_view(r) == parse_tzid_date_time(s@),
            r matches Ok(t) ==> t.date_time.is_valid(),
    {
        TzIdDateTime::parse(s)
    }
}

} // verus!
