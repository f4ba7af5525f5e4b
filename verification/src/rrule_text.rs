use vstd::prelude::*;
use vstd::string::StrSliceExecFns;

use crate::by_day::{parse_by_day, ByDay, ByDayView};
use crate::date_or_date_time::DateOrDateTime;
use crate::date_time_text::{parse_moment, read_moment};
use crate::frequency::{parse_frequency, read_frequency, Frequency};
use crate::rrule::{
    CommonOptions, CommonOptionsView, Daily, MonthlyByDay, MonthlyByMonthDay, RRule,
    RRuleParseError, RRuleParseErrorView, RRuleView, Weekly, WeeklyByDay, Yearly,
    YearlyByMonthByDay, YearlyByMonthByMonthDay,
};
use crate::text::{
    chars_of, has_prefix, parse_unsigned, pieces, read_unsigned, span_has_prefix, split_on,
    split_spans, Span,
};

verus! {

/// The index, from `from` on, of the first entry that begins with `key`, or the number of
/// entries where there is none.
pub open spec fn first_with_prefix(tokens: Seq<Seq<char>>, key: Seq<char>, from: int) -> int
    decreases tokens.len() - from,
{
    if from < 0 || from >= tokens.len() {
        tokens.len() as int
    } else if has_prefix(tokens[from], key) {
        from
    } else {
        first_with_prefix(tokens, key, from + 1)
    }
}

/// What follows `key` in the first entry after the frequency that begins with `key`.
pub open spec fn value_of(tokens: Seq<Seq<char>>, key: Seq<char>) -> Option<Seq<char>> {
    let i = first_with_prefix(tokens, key, 1);
    if 1 <= i < tokens.len() {
        Some(tokens[i].subrange(key.len() as int, tokens[i].len() as int))
    } else {
        None
    }
}

/// The number that follows `key`, where the rule has the key: an optional `+` and digits,
/// from `min` to `max`.
pub open spec fn number_of(tokens: Seq<Seq<char>>, key: Seq<char>, min: int, max: int) -> Result<
    Option<int>,
    RRuleParseErrorView,
> {
    match value_of(tokens, key) {
        None => Ok(None),
        Some(value) => match parse_unsigned(value, max) {
            Some(n) => if n >= min {
                Ok(Some(n))
            } else {
                Err(RRuleParseErrorView::ParseIntError)
            },
            None => Err(RRuleParseErrorView::ParseIntError),
        },
    }
}

/// The moment that follows `UNTIL=`, where the rule has the key.
pub open spec fn until_of(tokens: Seq<Seq<char>>, local_offset: int) -> Result<
    Option<DateOrDateTime>,
    RRuleParseErrorView,
> {
    match value_of(tokens, "UNTIL="@) {
        None => Ok(None),
        Some(value) => match parse_moment(value, local_offset) {
            Ok(until) => Ok(Some(until)),
            Err(e) => Err(RRuleParseErrorView::ParseDateOrDatetTimeError(e)),
        },
    }
}

/// The weekday selector that follows `BYDAY=`, where the rule has the key.
pub open spec fn by_day_of(line: Seq<char>, tokens: Seq<Seq<char>>) -> Result<
    Option<ByDayView>,
    RRuleParseErrorView,
> {
    match value_of(tokens, "BYDAY="@) {
        None => Ok(None),
        Some(value) => match parse_by_day(value) {
            Ok(by_day) => Ok(Some(by_day)),
            Err(error) => Err(RRuleParseErrorView::ByDayParserError { error, line }),
        },
    }
}

/// The shape that the frequency and the keys that are there make.
pub open spec fn shape_of(
    line: Seq<char>,
    frequency: Frequency,
    common_options: CommonOptionsView,
    by_month: Option<int>,
    by_month_day: Option<int>,
    by_day: Option<ByDayView>,
) -> Result<RRuleView, RRuleParseErrorView> {
    match frequency {
        Frequency::Yearly => match (by_month, by_month_day, by_day) {
            (Some(month), Some(month_day), _) => Ok(
                RRuleView::YearlyByMonthByMonthDay {
                    month: month as u8,
                    month_day: month_day as u8,
                    common_options,
                },
            ),
            (Some(month), None, Some(day)) => Ok(
                RRuleView::YearlyByMonthByDay { month: month as u8, day, common_options },
            ),
            (Some(_), None, None) => Err(
                RRuleParseErrorView::MissingrNextTokenAfterByMonth { line },
            ),
            (None, _, _) => Ok(RRuleView::Yearly { common_options }),
        },
        Frequency::Monthly => match (by_month_day, by_day) {
            (Some(month_day), _) => Ok(
                RRuleView::MonthlyByMonthDay { month_day: month_day as u8, common_options },
            ),
            (None, Some(day)) => Ok(RRuleView::MonthlyByDay { day, common_options }),
            (None, None) => Err(RRuleParseErrorView::MissingByDayOrByMonthDayError { line }),
        },
        Frequency::Weekly => match by_day {
            Some(day) => Ok(RRuleView::WeeklyByDay { day, common_options }),
            None => Ok(RRuleView::Weekly { common_options }),
        },
        Frequency::Daily => Ok(RRuleView::Daily { common_options }),
    }
}

/// What the entries after the frequency make of a rule. The keys are read in the order
/// `INTERVAL`, `UNTIL`, `COUNT`, `BYMONTH`, `BYMONTHDAY`, `BYDAY`, and the first that is
/// malformed is the error; only then is the shape looked for.
pub open spec fn parse_rrule_options(
    line: Seq<char>,
    tokens: Seq<Seq<char>>,
    frequency: Frequency,
    local_offset: int,
) -> Result<RRuleView, RRuleParseErrorView> {
    match number_of(tokens, "INTERVAL="@, 1, u32::MAX as int) {
        Err(e) => Err(e),
        Ok(interval) => match until_of(tokens, local_offset) {
            Err(e) => Err(e),
            Ok(until) => match number_of(tokens, "COUNT="@, 0, u32::MAX as int) {
                Err(e) => Err(e),
                Ok(count) => match number_of(tokens, "BYMONTH="@, 0, u8::MAX as int) {
                    Err(e) => Err(e),
                    Ok(by_month) => match number_of(tokens, "BYMONTHDAY="@, 0, u8::MAX as int) {
                        Err(e) => Err(e),
                        Ok(by_month_day) => match by_day_of(line, tokens) {
                            Err(e) => Err(e),
                            Ok(by_day) => shape_of(
                                line,
                                frequency,
                                CommonOptionsView {
                                    raw: line,
                                    until,
                                    interval: match interval {
                                        Some(n) => Some(n as u32),
                                        None => None,
                                    },
                                    count: match count {
                                        Some(n) => Some(n as u32),
                                        None => None,
                                    },
                                },
                                by_month,
                                by_month_day,
                                by_day,
                            ),
                        },
                    },
                },
            },
        },
    }
}

/// What a recurrence rule's text means.
///
/// The text is a list of `KEY=VALUE` entries with `;` between them. The first is `FREQ=` and
/// a frequency. Of the others, `INTERVAL`, `UNTIL`, `COUNT`, `BYMONTH`, `BYMONTHDAY` and
/// `BYDAY` are read, each where it first stands; any other entry is passed over.
pub open spec fn parse_rrule(s: Seq<char>, local_offset: int) -> Result<
    RRuleView,
    RRuleParseErrorView,
> {
    let tokens = split_on(s, ';');
    if !has_prefix(tokens[0], "FREQ="@) {
        Err(RRuleParseErrorView::MissingFrequencyToken { line: s })
    } else {
        match parse_frequency(tokens[0].subrange("FREQ="@.len() as int, tokens[0].len() as int)) {
            Err(err) => Err(RRuleParseErrorView::FrequencyParseError { err }),
            Ok(frequency) => parse_rrule_options(s, tokens, frequency, local_offset),
        }
    }
}

pub open spec fn rrule_result_view(r: Result<RRule, RRuleParseError>) -> Result<
    RRuleView,
    RRuleParseErrorView,
> {
    match r {
        Ok(rule) => Ok(rule@),
        Err(e) => Err(e@),
    }
}

/// Finds what follows `key` in the first entry after the frequency that begins with `key`.
pub fn find_value(chars: &Vec<char>, tokens: &Vec<Span>, key: &str) -> (r: Option<Span>)
    requires
        forall|k: int|
            0 <= k < tokens@.len() ==> (#[trigger] tokens@[k]).within(chars@.len() as int),
    ensures
        r matches Some(span) ==> span.within(chars@.len() as int) && value_of(
            pieces(chars@, tokens@),
            key@,
        ) == Some(span.of(chars@)),
        r is None ==> value_of(pieces(chars@, tokens@), key@) is None,
{
    let ghost all = pieces(chars@, tokens@);
    let mut i: usize = 1;
    while i < tokens.len()
        invariant
            1 <= i,
            all == pieces(chars@, tokens@),
            forall|k: int|
                0 <= k < tokens@.len() ==> (#[trigger] tokens@[k]).within(chars@.len() as int),
            first_with_prefix(all, key@, 1) == first_with_prefix(all, key@, i as int),
        decreases tokens@.len() - i,
    {
        let token = tokens[i];
        assert(all[i as int] == token.of(chars@));
        if span_has_prefix(chars, token, key) {
            let value = Span { start: token.start + key.unicode_len(), end: token.end };
            assert(value.of(chars@) =~= token.of(chars@).subrange(
                key@.len() as int,
                token.of(chars@).len() as int,
            ));
            return Some(value);
        }
        i += 1;
    }
    None
}

/// Reads the number that follows `key`, where the rule has the key.
pub fn read_number(chars: &Vec<char>, tokens: &Vec<Span>, key: &str, min: u32, max: u32) -> (r:
    Result<Option<u32>, RRuleParseError>)
    requires
        forall|k: int|
            0 <= k < tokens@.len() ==> (#[trigger] tokens@[k]).within(chars@.len() as int),
    ensures
        match r {
            Ok(Some(n)) => number_of(pieces(chars@, tokens@), key@, min as int, max as int) == Ok::<
                Option<int>,
                RRuleParseErrorView,
            >(Some(n as int)),
            Ok(None) => number_of(pieces(chars@, tokens@), key@, min as int, max as int) == Ok::<
                Option<int>,
                RRuleParseErrorView,
            >(None),
            Err(e) => number_of(pieces(chars@, tokens@), key@, min as int, max as int) == Err::<
                Option<int>,
                RRuleParseErrorView,
            >(e@),
        },
        r matches Ok(Some(n)) ==> min <= n <= max,
{
    match find_value(chars, tokens, key) {
        None => Ok(None),
        Some(value) => match read_unsigned(chars, value, max as u64) {
            Some(n) => if n >= min as u64 {
                Ok(Some(n as u32))
            } else {
                Err(RRuleParseError::ParseIntError)
            },
            None => Err(RRuleParseError::ParseIntError),
        },
    }
}

/// The eight-bit number of a key that is there.
fn narrow(n: Option<u32>) -> (r: Option<u8>)
    requires
        n matches Some(v) ==> v <= u8::MAX,
    ensures
        r is Some == n is Some,
        r matches Some(v) ==> n == Some(v as u32),
{
    match n {
        Some(v) => Some(v as u8),
        None => None,
    }
}

impl RRule {
    /// Reads a recurrence rule, such as `FREQ=WEEKLY;BYDAY=MO,WE;COUNT=10`.
    ///
    /// `local_offset` is the number of seconds by which the local clock is ahead of UTC; it
    /// decides what an `UNTIL` without a `Z` means.
    pub fn parse(s: &str, local_offset: i32) -> (r: Result<RRule, RRuleParseError>)
        ensures
            rrule_result_view(r) == parse_rrule(s@, local_offset as int),
            r matches Ok(rule) ==> rule@.is_valid(),
    {
        let chars = chars_of(s);
        let whole = Span { start: 0, end: chars.len() };
        assert(whole.of(chars@) =~= s@);
        let tokens = split_spans(&chars, whole, ';');
        let ghost all = pieces(chars@, tokens@);
        let first = tokens[0];
        assert(all[0] == first.of(chars@));
        if !span_has_prefix(&chars, first, "FREQ=") {
            return Err(RRuleParseError::MissingFrequencyToken { line: s.to_owned() });
        }
        let word = Span { start: first.start + "FREQ=".unicode_len(), end: first.end };
        assert(word.of(chars@) =~= all[0].subrange("FREQ="@.len() as int, all[0].len() as int));
        let frequency = match read_frequency(s, &chars, word) {
            Ok(frequency) => frequency,
            Err(err) => {
                return Err(RRuleParseError::FrequencyParseError { err });
            },
        };

        let interval = match read_number(&chars, &tokens, "INTERVAL=", 1, u32::MAX) {
            Ok(interval) => interval,
            Err(e) => {
                return Err(e);
            },
        };
        let until = match find_value(&chars, &tokens, "UNTIL=") {
            None => None,
            Some(value) => match read_moment(&chars, value, local_offset) {
                Ok(until) => Some(until),
                Err(e) => {
                    return Err(RRuleParseError::ParseDateOrDatetTimeError(e));
                },
            },
        };
        let count = match read_number(&chars, &tokens, "COUNT=", 0, u32::MAX) {
            Ok(count) => count,
            Err(e) => {
                return Err(e);
            },
        };
        let by_month = match read_number(&chars, &tokens, "BYMONTH=", 0, 255) {
            Ok(by_month) => narrow(by_month),
            Err(e) => {
                return Err(e);
            },
        };
        let by_month_day = match read_number(&chars, &tokens, "BYMONTHDAY=", 0, 255) {
            Ok(by_month_day) => narrow(by_month_day),
            Err(e) => {
                return Err(e);
            },
        };
        let by_day = match find_value(&chars, &tokens, "BYDAY=") {
            None => None,
            Some(value) => match ByDay::read(s, &chars, value) {
                Ok(by_day) => Some(by_day),
                Err(error) => {
                    return Err(RRuleParseError::ByDayParserError { error, line: s.to_owned() });
                },
            },
        };

        let common_options = CommonOptions::new(s, until, interval, count);
        match frequency {
            Frequency::Yearly => {
                if let Some(month) = by_month {
                    if let Some(month_day) = by_month_day {
                        Ok(
                            RRule::YearlyByMonthByMonthDay(
                                YearlyByMonthByMonthDay { month, month_day, common_options },
                            ),
                        )
                    } else if let Some(day) = by_day {
                        Ok(
                            RRule::YearlyByMonthByDay(
                                YearlyByMonthByDay { month, day, common_options },
                            ),
                        )
                    } else {
                        Err(
                            RRuleParseError::MissingrNextTokenAfterByMonth { line: s.to_owned() },
                        )
                    }
                } else {
                    Ok(RRule::Yearly(Yearly { common_options }))
                }
            },
            Frequency::Monthly => {
                if let Some(month_day) = by_month_day {
                    Ok(RRule::MonthlyByMonthDay(MonthlyByMonthDay { month_day, common_options }))
                } else if let Some(day) = by_day {
                    Ok(RRule::MonthlyByDay(MonthlyByDay { day, common_options }))
                } else {
                    Err(RRuleParseError::MissingByDayOrByMonthDayError { line: s.to_owned() })
                }
            },
            Frequency::Weekly => {
                if let Some(day) = by_day {
                    Ok(RRule::WeeklyByDay(WeeklyByDay { day, common_options }))
                } else {
                    Ok(RRule::Weekly(Weekly { common_options }))
                }
            },
            Frequency::Daily => Ok(RRule::Daily(Daily { common_options })),
        }
    }
}

} // verus!
