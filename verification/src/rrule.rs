use vstd::prelude::*;

use crate::by_day::{ByDay, ByDayParseError, ByDayParseErrorView, ByDayView};
use crate::date_or_date_time::DateOrDateTime;
use crate::date_time_text::DateTimeParseError;
use crate::frequency::{Frequency, FrequencyParseError, FrequencyParseErrorView};

verus! {

#[derive(Debug, Clone, PartialEq, Eq)]
pub enum RRuleParseError {
    Generic,
    /// The word after `FREQ=` is no frequency.
    FrequencyParseError { err: FrequencyParseError },
    /// The rule does not begin with `FREQ=`.
    MissingFrequencyToken { line: String },
    /// A yearly rule names a month, and neither a day of the month nor a weekday.
    MissingrNextTokenAfterByMonth { line: String },
    /// A number is malformed or too large, or an interval is 0.
    ParseIntError,
    /// The text after `UNTIL=` is no moment.
    ParseDateOrDatetTimeError(DateTimeParseError),
    /// A monthly rule names neither a day of the month nor a weekday.
    MissingByDayOrByMonthDayError { line: String },
    MissingByDayError { line: String },
    /// The text after `BYDAY=` is no weekday selector.
    ByDayParserError { error: ByDayParseError, line: String },
}

pub enum RRuleParseErrorView {
    Generic,
    FrequencyParseError { err: FrequencyParseErrorView },
    MissingFrequencyToken { line: Seq<char> },
    MissingrNextTokenAfterByMonth { line: Seq<char> },
    ParseIntError,
    ParseDateOrDatetTimeError(DateTimeParseError),
    MissingByDayOrByMonthDayError { line: Seq<char> },
    MissingByDayError { line: Seq<char> },
    ByDayParserError { error: ByDayParseErrorView, line: Seq<char> },
}

impl View for RRuleParseError {
    type V = RRuleParseErrorView;

    open spec fn view(&self) -> RRuleParseErrorView {
        match self {
            RRuleParseError::Generic => RRuleParseErrorView::Generic,
            RRuleParseError::FrequencyParseError { err } => {
                RRuleParseErrorView::FrequencyParseError { err: err@ }
            },
            RRuleParseError::MissingFrequencyToken { line } => {
                RRuleParseErrorView::MissingFrequencyToken { line: line@ }
            },
            RRuleParseError::MissingrNextTokenAfterByMonth { line } => {
                RRuleParseErrorView::MissingrNextTokenAfterByMonth { line: line@ }
            },
            RRuleParseError::ParseIntError => RRuleParseErrorView::ParseIntError,
            RRuleParseError::ParseDateOrDatetTimeError(e) => {
                RRuleParseErrorView::ParseDateOrDatetTimeError(*e)
            },
            RRuleParseError::MissingByDayOrByMonthDayError { line } => {
                RRuleParseErrorView::MissingByDayOrByMonthDayError { line: line@ }
            },
            RRuleParseError::MissingByDayError { line } => {
                RRuleParseErrorView::MissingByDayError { line: line@ }
            },
            RRuleParseError::ByDayParserError { error, line } => {
                RRuleParseErrorView::ByDayParserError { error: error@, line: line@ }
            },
        }
    }
}

#[derive(Debug, Clone, PartialEq, Eq, Hash)]
pub struct Generic {
    pub frequency: Frequency,
    pub raw: String,
}

/// What every recurrence rule has: its text, and its three bounds where they are given.
#[derive(Debug, Clone, Default, PartialEq, Eq, Hash)]
pub struct CommonOptions {
    pub raw: String,
    /// No occurrence starts after this moment.
    pub until: Option<DateOrDateTime>,
    /// Every how many steps of the rule an occurrence falls; 1 where it is not given.
    pub interval: Option<u32>,
    /// How many occurrences there are at most.
    pub count: Option<u32>,
}

pub struct CommonOptionsView {
    pub raw: Seq<char>,
    pub until: Option<DateOrDateTime>,
    pub interval: Option<u32>,
    pub count: Option<u32>,
}

impl View for CommonOptions {
    type V = CommonOptionsView;

    open spec fn view(&self) -> CommonOptionsView {
        CommonOptionsView {
            raw: self.raw@,
            until: self.until,
            interval: self.interval,
            count: self.count,
        }
    }
}

impl CommonOptionsView {
    /// The moment until which the rule runs is a valid one, and the interval is not 0.
    pub open spec fn is_valid(self) -> bool {
        &&& self.until matches Some(until) ==> until.is_valid()
        &&& self.interval != Some(0u32)
    }

    /// The number of steps from one occurrence to the next.
    pub open spec fn steps(self) -> int {
        match self.interval {
            Some(interval) => interval as int,
            None => 1,
        }
    }

    /// As many occurrences as the rule allows have been given out.
    pub open spec fn is_out_of_count(self, count: u32) -> bool {
        match self.count {
            Some(limit) => count >= limit,
            None => false,
        }
    }

    /// The moment lies after the one until which the rule runs.
    pub open spec fn is_expired(self, dt: DateOrDateTime) -> bool {
        match self.until {
            Some(until) => until.is_before(dt),
            None => false,
        }
    }
}

impl CommonOptions {
    /// Whether the moment until which the rule runs is a valid one and the interval is not 0.
    pub fn check_valid(&self) -> (r: bool)
        ensures
            r == self@.is_valid(),
    {
        let until_ok = match self.until {
            Some(until) => until.check_valid(),
            None => true,
        };
        let interval_ok = match self.interval {
            Some(interval) => interval != 0,
            None => true,
        };
        until_ok && interval_ok
    }

    pub fn new(raw: &str, until: Option<DateOrDateTime>, interval: Option<u32>, count: Option<u32>) -> (r:
        Self)
        ensures
            r@ == (CommonOptionsView { raw: raw@, until, interval, count }),
    {
        Self { raw: raw.to_owned(), until, interval, count }
    }
}

#[derive(Debug, Clone, PartialEq, Eq, Hash)]
pub struct Yearly {
    pub common_options: CommonOptions,
}

#[derive(Debug, Clone, PartialEq, Eq, Hash)]
pub struct YearlyByMonthByMonthDay {
    pub month: u8,
    pub month_day: u8,
    pub common_options: CommonOptions,
}

#[derive(Debug, Clone, PartialEq, Eq, Hash)]
pub struct YearlyByMonthByDay {
    pub month: u8,
    pub day: ByDay,
    pub common_options: CommonOptions,
}

#[derive(Debug, Clone, PartialEq, Eq, Hash)]
pub struct MonthlyByMonthDay {
    pub month_day: u8,
    pub common_options: CommonOptions,
}

#[derive(Debug, Clone, PartialEq, Eq, Hash)]
pub struct MonthlyByDay {
    pub day: ByDay,
    pub common_options: CommonOptions,
}

#[derive(Debug, Clone, PartialEq, Eq, Hash)]
pub struct WeeklyByDay {
    pub day: ByDay,
    pub common_options: CommonOptions,
}

#[derive(Debug, Clone, PartialEq, Eq, Hash)]
pub struct Weekly {
    pub common_options: CommonOptions,
}

#[derive(Debug, Clone, PartialEq, Eq, Hash)]
pub struct Daily {
    pub common_options: CommonOptions,
}

/// A recurrence rule, in one of its eight shapes.
#[derive(Debug, Clone, PartialEq, Eq, Hash)]
pub enum RRule {
    Yearly(Yearly),
    YearlyByMonthByMonthDay(YearlyByMonthByMonthDay),
    YearlyByMonthByDay(YearlyByMonthByDay),
    MonthlyByMonthDay(MonthlyByMonthDay),
    MonthlyByDay(MonthlyByDay),
    WeeklyByDay(WeeklyByDay),
    Weekly(Weekly),
    Daily(Daily),
}

pub enum RRuleView {
    Yearly { common_options: CommonOptionsView },
    YearlyByMonthByMonthDay { month: u8, month_day: u8, common_options: CommonOptionsView },
    YearlyByMonthByDay { month: u8, day: ByDayView, common_options: CommonOptionsView },
    MonthlyByMonthDay { month_day: u8, common_options: CommonOptionsView },
    MonthlyByDay { day: ByDayView, common_options: CommonOptionsView },
    WeeklyByDay { day: ByDayView, common_options: CommonOptionsView },
    Weekly { common_options: CommonOptionsView },
    Daily { common_options: CommonOptionsView },
}

impl View for RRule {
    type V = RRuleView;

    open spec fn view(&self) -> RRuleView {
        match self {
            RRule::Yearly(rule) => RRuleView::Yearly { common_options: rule.common_options@ },
            RRule::YearlyByMonthByMonthDay(rule) => RRuleView::YearlyByMonthByMonthDay {
                month: rule.month,
                month_day: rule.month_day,
                common_options: rule.common_options@,
            },
            RRule::YearlyByMonthByDay(rule) => RRuleView::YearlyByMonthByDay {
                month: rule.month,
                day: rule.day@,
                common_options: rule.common_options@,
            },
            RRule::MonthlyByMonthDay(rule) => RRuleView::MonthlyByMonthDay {
                month_day: rule.month_day,
                common_options: rule.common_options@,
            },
            RRule::MonthlyByDay(rule) => RRuleView::MonthlyByDay {
                day: rule.day@,
                common_options: rule.common_options@,
            },
            RRule::WeeklyByDay(rule) => RRuleView::WeeklyByDay {
                day: rule.day@,
                common_options: rule.common_options@,
            },
            RRule::Weekly(rule) => RRuleView::Weekly { common_options: rule.common_options@ },
            RRule::Daily(rule) => RRuleView::Daily { common_options: rule.common_options@ },
        }
    }
}

/// The view of a rule that may be there.
pub open spec fn rule_view(rule: Option<RRule>) -> Option<RRuleView> {
    match rule {
        Some(rule) => Some(rule@),
        None => None,
    }
}

impl RRuleView {
    /// The bounds of the rule, whatever its shape.
    pub open spec fn common_options(self) -> CommonOptionsView {
        match self {
            RRuleView::Yearly { common_options } => common_options,
            RRuleView::YearlyByMonthByMonthDay { common_options, .. } => common_options,
            RRuleView::YearlyByMonthByDay { common_options, .. } => common_options,
            RRuleView::MonthlyByMonthDay { common_options, .. } => common_options,
            RRuleView::MonthlyByDay { common_options, .. } => common_options,
            RRuleView::WeeklyByDay { common_options, .. } => common_options,
            RRuleView::Weekly { common_options } => common_options,
            RRuleView::Daily { common_options } => common_options,
        }
    }

    /// The bounds of the rule are valid.
    pub open spec fn is_valid(self) -> bool {
        self.common_options().is_valid()
    }
}

/// Access to the bounds that every shape of rule has.
pub trait Options {
    /// The bounds of the rule.
    spec fn options(&self) -> CommonOptionsView;

    fn common_options(&self) -> (r: &CommonOptions)
        ensures
            r@ == self.options(),
    ;

    /// Whether `count` occurrences are as many as the rule allows, or more.
    fn is_out_of_count(&self, count: u32) -> (r: bool)
        ensures
            r == self.options().is_out_of_count(count),
    {
        match self.common_options().count {
            Some(limit) => count >= limit,
            None => false,
        }
    }

    /// Whether the moment lies after the one until which the rule runs.
    fn is_expired(&self, dt: DateOrDateTime) -> (r: bool)
        ensures
            r == self.options().is_expired(dt),
    {
        match self.common_options().until {
            Some(until) => dt.after(&until),
            None => false,
        }
    }
}

impl Options for Yearly {
    open spec fn options(&self) -> CommonOptionsView {
        self.common_options@
    }

    fn common_options(&self) -> (r: &CommonOptions) {
        &self.common_options
    }
}

impl Options for YearlyByMonthByDay {
    open spec fn options(&self) -> CommonOptionsView {
        self.common_options@
    }

    fn common_options(&self) -> (r: &CommonOptions) {
        &self.common_options
    }
}

impl Options for YearlyByMonthByMonthDay {
    open spec fn options(&self) -> CommonOptionsView {
        self.common_options@
    }

    fn common_options(&self) -> (r: &CommonOptions) {
        &self.common_options
    }
}

impl Options for MonthlyByDay {
    open spec fn options(&self) -> CommonOptionsView {
        self.common_options@
    }

    fn common_options(&self) -> (r: &CommonOptions) {
        &self.common_options
    }
}

impl Options for MonthlyByMonthDay {
    open spec fn options(&self) -> CommonOptionsView {
        self.common_options@
    }

    fn common_options(&self) -> (r: &CommonOptions) {
        &self.common_options
    }
}

impl Options for Weekly {
    open spec fn options(&self) -> CommonOptionsView {
        self.common_options@
    }

    fn common_options(&self) -> (r: &CommonOptions) {
        &self.common_options
    }
}

impl Options for WeeklyByDay {
    open spec fn options(&self) -> CommonOptionsView {
        self.common_options@
    }

    fn common_options(&self) -> (r: &CommonOptions) {
        &self.common_options
    }
}

impl Options for Daily {
    open spec fn options(&self) -> CommonOptionsView {
        self.common_options@
    }

    fn common_options(&self) -> (r: &CommonOptions) {
        &self.common_options
    }
}

impl Options for RRule {
    open spec fn options(&self) -> CommonOptionsView {
        self@.common_options()
    }

    fn common_options(&self) -> (r: &CommonOptions) {
        match self {
            RRule::Yearly(rrule) => &rrule.common_options,
            RRule::YearlyByMonthByDay(rrule) => &rrule.common_options,
            RRule::YearlyByMonthByMonthDay(rrule) => &rrule.common_options,
            RRule::MonthlyByMonthDay(rrule) => &rrule.common_options,
            RRule::MonthlyByDay(rrule) => &rrule.common_options,
            RRule::WeeklyByDay(rrule) => &rrule.common_options,
            RRule::Weekly(rrule) => &rrule.common_options,
            RRule::Daily(rrule) => &rrule.common_options,
        }
    }
}

} // verus!
