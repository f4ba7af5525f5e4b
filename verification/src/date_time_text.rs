use vstd::prelude::*;

use crate::date_or_date_time::DateOrDateTime;
use crate::text::{chars_of, parse_digits, read_digits, Span};
use crate::utc_date_time::{
    utc_from_fields, utc_plus_seconds, utc_shifted, valid_date, valid_time, UtcDateTime,
};

verus! {

/// Why a text is no date or date and time.
#[derive(Debug, Clone, Copy, PartialEq, Eq, Hash, Structural)]
pub enum DateTimeParseError {
    /// The text has not the shape `YYYYMMDD` or `YYYYMMDDTHHMMSS`.
    InvalidFormat,
    /// The digits name a day that is not in the calendar, or a time that is not on the clock.
    NoSuchDateTime,
    /// The moment lies, in UTC, outside the years that a date can have.
    OutOfRange,
}

/// The date that eight digits write, at midnight.
pub open spec fn parse_date_text(s: Seq<char>) -> Result<UtcDateTime, DateTimeParseError> {
    if s.len() != 8 {
        Err(DateTimeParseError::InvalidFormat)
    } else {
        match (
            parse_digits(s.subrange(0, 4), 9999),
            parse_digits(s.subrange(4, 6), 99),
            parse_digits(s.subrange(6, 8), 99),
        ) {
            (Some(year), Some(month), Some(day)) => if valid_date(year, month, day) {
                Ok(
                    UtcDateTime {
                        year: year as i32,
                        month: month as u32,
                        day: day as u32,
                        hour: 0,
                        minute: 0,
                        second: 0,
                    },
                )
            } else {
                Err(DateTimeParseError::NoSuchDateTime)
            },
            _ => Err(DateTimeParseError::InvalidFormat),
        }
    }
}

/// The date and time that `YYYYMMDDTHHMMSS` writes.
pub open spec fn parse_date_time_text(s: Seq<char>) -> Result<UtcDateTime, DateTimeParseError> {
    if s.len() != 15 || s[8] != 'T' {
        Err(DateTimeParseError::InvalidFormat)
    } else {
        match (
            parse_date_text(s.subrange(0, 8)),
            parse_digits(s.subrange(9, 11), 99),
            parse_digits(s.subrange(11, 13), 99),
            parse_digits(s.subrange(13, 15), 99),
        ) {
            (Err(DateTimeParseError::InvalidFormat), _, _, _) => Err(
                DateTimeParseError::InvalidFormat,
            ),
            (_, None, _, _) => Err(DateTimeParseError::InvalidFormat),
            (_, _, None, _) => Err(DateTimeParseError::InvalidFormat),
            (_, _, _, None) => Err(DateTimeParseError::InvalidFormat),
            (Ok(date), Some(hour), Some(minute), Some(second)) => if valid_time(
                hour,
                minute,
                second,
            ) {
                Ok(
                    UtcDateTime {
                        hour: hour as u32,
                        minute: minute as u32,
                        second: second as u32,
                        ..date
                    },
                )
            } else {
                Err(DateTimeParseError::NoSuchDateTime)
            },
            (Err(e), _, _, _) => Err(e),
        }
    }
}

/// The UTC date and time of a local one, where the local clock is `local_offset` seconds
/// ahead of UTC.
pub open spec fn local_to_utc(local: UtcDateTime, local_offset: int) -> Result<
    UtcDateTime,
    DateTimeParseError,
> {
    match utc_shifted(local, -local_offset) {
        Some(t) => Ok(t),
        None => Err(DateTimeParseError::OutOfRange),
    }
}

/// What a moment's text means.
///
/// Eight characters are a whole day: the date they write, taken at local midnight and
/// carried over to UTC. Anything else is an instant, `YYYYMMDDTHHMMSS`: in UTC where a `Z`
/// follows, else in local time, carried over to UTC.
pub open spec fn parse_moment(s: Seq<char>, local_offset: int) -> Result<
    DateOrDateTime,
    DateTimeParseError,
> {
    if s.len() == 8 {
        match parse_date_text(s) {
            Err(e) => Err(e),
            Ok(date) => match local_to_utc(date, local_offset) {
                Err(e) => Err(e),
                Ok(t) => Ok(DateOrDateTime::WholeDay(t)),
            },
        }
    } else {
        match parse_instant(s, local_offset) {
            Err(e) => Err(e),
            Ok(t) => Ok(DateOrDateTime::DateTime(t)),
        }
    }
}

/// What an instant's text means: `YYYYMMDDTHHMMSS`, in UTC where a `Z` follows, else in
/// local time.
pub open spec fn parse_instant(s: Seq<char>, local_offset: int) -> Result<
    UtcDateTime,
    DateTimeParseError,
> {
    if s.len() > 0 && s.last() == 'Z' {
        parse_date_time_text(s.drop_last())
    } else {
        match parse_date_time_text(s) {
            Err(e) => Err(e),
            Ok(local) => local_to_utc(local, local_offset),
        }
    }
}

/// Reads the date that eight digits write.
pub fn read_date(chars: &Vec<char>, span: Span) -> (r: Result<UtcDateTime, DateTimeParseError>)
    requires
        span.within(chars@.len() as int),
    ensures
        r == parse_date_text(span.of(chars@)),
        r matches Ok(t) ==> t.is_valid(),
{
    if span.end - span.start != 8 {
        return Err(DateTimeParseError::InvalidFormat);
    }
    let ghost s = span.of(chars@);
    let year_span = Span { start: span.start, end: span.start + 4 };
    let month_span = Span { start: span.start + 4, end: span.start + 6 };
    let day_span = Span { start: span.start + 6, end: span.start + 8 };
    assert(year_span.of(chars@) =~= s.subrange(0, 4));
    assert(month_span.of(chars@) =~= s.subrange(4, 6));
    assert(day_span.of(chars@) =~= s.subrange(6, 8));
    let year = read_digits(chars, year_span, 9999);
    let month = read_digits(chars, month_span, 99);
    let day = read_digits(chars, day_span, 99);
    match (year, month, day) {
        (Some(year), Some(month), Some(day)) => {
            match utc_from_fields(year as i32, month as u32, day as u32, 0, 0, 0) {
                Some(t) => Ok(t),
                None => Err(DateTimeParseError::NoSuchDateTime),
            }
        },
        _ => Err(DateTimeParseError::InvalidFormat),
    }
}

/// Reads the date and time that `YYYYMMDDTHHMMSS` writes.
pub fn read_date_time(chars: &Vec<char>, span: Span) -> (r: Result<
    UtcDateTime,
    DateTimeParseError,
>)
    requires
        span.within(chars@.len() as int),
    ensures
        r == parse_date_time_text(span.of(chars@)),
        r matches Ok(t) ==> t.is_valid(),
{
    if span.end - span.start != 15 {
        return Err(DateTimeParseError::InvalidFormat);
    }
    let ghost s = span.of(chars@);
    assert(s[8] == chars@[span.start + 8]);
    if chars[span.start + 8] != 'T' {
        return Err(DateTimeParseError::InvalidFormat);
    }
    let date_span = Span { start: span.start, end: span.start + 8 };
    let hour_span = Span { start: span.start + 9, end: span.start + 11 };
    let minute_span = Span { start: span.start + 11, end: span.start + 13 };
    let second_span = Span { start: span.start + 13, end: span.start + 15 };
    assert(date_span.of(chars@) =~= s.subrange(0, 8));
    assert(hour_span.of(chars@) =~= s.subrange(9, 11));
    assert(minute_span.of(chars@) =~= s.subrange(11, 13));
    assert(second_span.of(chars@) =~= s.subrange(13, 15));
    let date = read_date(chars, date_span);
    let hour = read_digits(chars, hour_span, 99);
    let minute = read_digits(chars, minute_span, 99);
    let second = read_digits(chars, second_span, 99);
    match (date, hour, minute, second) {
        (Err(DateTimeParseError::InvalidFormat), _, _, _) => Err(DateTimeParseError::InvalidFormat),
        (_, None, _, _) => Err(DateTimeParseError::InvalidFormat),
        (_, _, None, _) => Err(DateTimeParseError::InvalidFormat),
        (_, _, _, None) => Err(DateTimeParseError::InvalidFormat),
        (Ok(date), Some(hour), Some(minute), Some(second)) => {
            match utc_from_fields(
                date.year,
                date.month,
                date.day,
                hour as u32,
                minute as u32,
                second as u32,
            ) {
                Some(t) => Ok(t),
                None => Err(DateTimeParseError::NoSuchDateTime),
            }
        },
        (Err(e), _, _, _) => Err(e),
    }
}

/// Carries a local date and time over to UTC.
pub fn to_utc(local: UtcDateTime, local_offset: i32) -> (r: Result<UtcDateTime, DateTimeParseError>)
    requires
        local.is_valid(),
    ensures
        r == local_to_utc(local, local_offset as int),
        r matches Ok(t) ==> t.is_valid(),
{
    match utc_plus_seconds(local, -(local_offset as i64)) {
        Some(t) => Ok(t),
        None => Err(DateTimeParseError::OutOfRange),
    }
}

/// Reads an instant from a part of a text.
pub fn read_instant(chars: &Vec<char>, span: Span, local_offset: i32) -> (r: Result<
    UtcDateTime,
    DateTimeParseError,
>)
    requires
        span.within(chars@.len() as int),
    ensures
        r == parse_instant(span.of(chars@), local_offset as int),
        r matches Ok(t) ==> t.is_valid(),
{
    let ghost s = span.of(chars@);
    if span.end > span.start && chars[span.end - 1] == 'Z' {
        let rest = Span { start: span.start, end: span.end - 1 };
        assert(rest.of(chars@) =~= s.drop_last());
        read_date_time(chars, rest)
    } else {
        match read_date_time(chars, span) {
            Err(e) => Err(e),
            Ok(local) => to_utc(local, local_offset),
        }
    }
}

/// Reads a moment from a part of a text.
pub fn read_moment(chars: &Vec<char>, span: Span, local_offset: i32) -> (r: Result<
    DateOrDateTime,
    DateTimeParseError,
>)
    requires
        span.within(chars@.len() as int),
    ensures
        r == parse_moment(span.of(chars@), local_offset as int),
        r matches Ok(m) ==> m.is_valid(),
{
    if span.end - span.start == 8 {
        match read_date(chars, span) {
            Err(e) => Err(e),
            Ok(date) => match to_utc(date, local_offset) {
                Err(e) => Err(e),
                Ok(t) => Ok(DateOrDateTime::WholeDay(t)),
            },
        }
    } else {
        match read_instant(chars, span, local_offset) {
            Err(e) => Err(e),
            Ok(t) => Ok(DateOrDateTime::DateTime(t)),
        }
    }
}

/// Reads a moment: a whole day from eight digits, else an instant.
///
/// `local_offset` is the number of seconds by which the local clock is ahead of UTC; it
/// decides what a text without a `Z` means.
pub fn string_to_date_or_datetime(s: &str, local_offset: i32) -> (r: Result<
    DateOrDateTime,
    DateTimeParseError,
>)
    ensures
        r == parse_moment(s@, local_offset as int),
        r matches Ok(m) ==> m.is_valid(),
{
    let chars = chars_of(s);
    let whole = Span { start: 0, end: chars.len() };
    assert(whole.of(chars@) =~= s@);
    read_moment(&chars, whole, local_offset)
}

/// Reads an instant, `YYYYMMDDTHHMMSS` with a `Z` for UTC or without for local time.
pub fn string_to_datetime(s: &str, local_offset: i32) -> (r: Result<
    UtcDateTime,
    DateTimeParseError,
>)
    ensures
        r == parse_instant(s@, local_offset as int),
        r matches Ok(t) ==> t.is_valid(),
{
    let chars = chars_of(s);
    let whole = Span { start: 0, end: chars.len() };
    assert(whole.of(chars@) =~= s@);
    read_instant(&chars, whole, local_offset)
}

/// Reads a date, `YYYYMMDD`, as that day's midnight.
pub fn string_to_date(s: &str) -> (r: Result<UtcDateTime, DateTimeParseError>)
    ensures
        r == parse_date_text(s@),
        r matches Ok(t) ==> t.is_valid(),
{
    let chars = chars_of(s);
    let whole = Span { start: 0, end: chars.len() };
    assert(whole.of(chars@) =~= s@);
    read_date(&chars, whole)
}

} // verus!
