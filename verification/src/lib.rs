//! Recurring calendar events.
//!
//! The library reads the text of a calendar and expands its recurring events into their
//! occurrences. Its parts, from the ground up:
//!
//! - [`UtcDateTime`] is a date and a time of day in UTC; [`DateOrDateTime`] is a moment, a
//!   whole day or an instant, with its calendar arithmetic, its order, and the classification
//!   of an interval against a moment, [`DateOrDateTime::intersects`].
//! - [`ByDay`] says which weekdays, [`Frequency`] how often, and [`RRule`] is a recurrence
//!   rule in one of its eight shapes, each read from its text.
//! - [`VEventIterator`] gives out the occurrences of a [`VEvent`] one by one, and
//!   [`VEvent::next_occurrence_since`] finds the first that is not over at a given moment.
//! - [`VCalendar`], [`VTimezone`] and [`Block`] read the text that the events come in.
//!
//! Every function says in its contract what it returns. The calendar itself — which days
//! exist, what a number of seconds later is, on which weekday a date falls, what a local
//! time is in a time zone — is taken from the crates `chrono` and `chrono-tz`, behind a few
//! functions whose contracts are stated and not proved.

pub mod block;
pub mod by_day;
pub mod date_or_date_time;
pub mod date_time_text;
pub mod frequency;
pub mod ical_line_parser;
pub mod moment_order;
pub mod moment_weekdays;
pub mod rrule;
pub mod rrule_text;
pub mod text;
pub mod tzid_date_time;
pub mod utc_date_time;
pub mod vcalendar;
pub mod vevent;
pub mod vevent_iterator;
pub mod vevent_text;
pub mod vtimezone;
pub mod weekday;

pub use block::{Block, BlockParseError};
pub use by_day::{ByDay, ByDayParseError, Delta};
pub use date_or_date_time::{DateIntersectError, DateOrDateTime, EventOverlap, SubstitutionError};
pub use date_time_text::{
    string_to_date, string_to_date_or_datetime, string_to_datetime, DateTimeParseError,
};
pub use frequency::{Frequency, FrequencyParseError};
pub use ical_line_parser::ICalLineParser;
pub use rrule::{
    CommonOptions, Daily, Generic, MonthlyByDay, MonthlyByMonthDay, Options, RRule,
    RRuleParseError, Weekly, WeeklyByDay, Yearly, YearlyByMonthByDay, YearlyByMonthByMonthDay,
};
pub use tzid_date_time::{TzIdDateTime, TzIdDateTimeFormatError};
pub use utc_date_time::{UtcDateTime, MAX_YEAR, MIN_YEAR};
pub use vcalendar::{VCalendar, VCalendarParseError};
pub use vevent::{OccurrenceError, OccurrenceResult, VEvent};
pub use vevent_iterator::VEventIterator;
pub use vevent_text::VEventFormatError;
pub use vtimezone::{VTimezone, VTimezoneOffset, VTimezoneOffsetParseError, VTimezoneParseError};
pub use weekday::Weekday;
