use ical_events::{
    ByDay, ByDayParseError, CommonOptions, Daily, DateOrDateTime, DateTimeParseError, Delta,
    Frequency, FrequencyParseError, MonthlyByDay, MonthlyByMonthDay, Options, RRule,
    RRuleParseError, UtcDateTime, Weekday, Weekly, WeeklyByDay, Yearly, YearlyByMonthByDay,
    YearlyByMonthByMonthDay,
};

fn moment(year: i32, month: u32, day: u32, hour: u32, minute: u32, second: u32) -> UtcDateTime {
    UtcDateTime {
        year,
        month,
        day,
        hour,
        minute,
        second,
    }
}

fn options(
    raw: &str,
    until: Option<DateOrDateTime>,
    interval: Option<u32>,
    count: Option<u32>,
) -> CommonOptions {
    CommonOptions {
        raw: raw.to_string(),
        until,
        interval,
        count,
    }
}

#[test]
fn frequency_words() {
    assert_eq!("YEARLY".parse::<Frequency>(), Ok(Frequency::Yearly));
    assert_eq!(Frequency::parse("MONTHLY"), Ok(Frequency::Monthly));
    assert_eq!(Frequency::parse("WEEKLY"), Ok(Frequency::Weekly));
    assert_eq!(Frequency::parse("DAILY"), Ok(Frequency::Daily));
    assert_eq!(
        Frequency::parse("daily"),
        Err(FrequencyParseError::UnrecognizedFrequency {
            freq: "daily".to_string()
        })
    );
    assert_eq!(
        Frequency::parse(""),
        Err(FrequencyParseError::UnrecognizedFrequency {
            freq: String::new()
        })
    );
}

#[test]
fn rule_shapes() {
    let s = "FREQ=YEARLY";
    assert_eq!(
        RRule::parse(s, 0),
        Ok(RRule::Yearly(Yearly {
            common_options: options(s, None, None, None)
        }))
    );
    let s = "FREQ=YEARLY;BYMONTH=3;BYMONTHDAY=14";
    assert_eq!(
        RRule::parse(s, 0),
        Ok(RRule::YearlyByMonthByMonthDay(YearlyByMonthByMonthDay {
            month: 3,
            month_day: 14,
            common_options: options(s, None, None, None)
        }))
    );
    let s = "FREQ=YEARLY;BYMONTH=10;BYDAY=-1SU";
    assert_eq!(
        RRule::parse(s, 0),
        Ok(RRule::YearlyByMonthByDay(YearlyByMonthByDay {
            month: 10,
            day: ByDay::Delta(Delta::new(-1, Weekday::Sun)),
            common_options: options(s, None, None, None)
        }))
    );
    let s = "FREQ=MONTHLY;INTERVAL=2;BYMONTHDAY=31";
    assert_eq!(
        RRule::parse(s, 0),
        Ok(RRule::MonthlyByMonthDay(MonthlyByMonthDay {
            month_day: 31,
            common_options: options(s, None, Some(2), None)
        }))
    );
    let s = "FREQ=MONTHLY;BYDAY=2FR;COUNT=5";
    assert_eq!(
        RRule::parse(s, 0),
        Ok(RRule::MonthlyByDay(MonthlyByDay {
            day: ByDay::Delta(Delta::new(2, Weekday::Fri)),
            common_options: options(s, None, None, Some(5))
        }))
    );
    let s = "FREQ=WEEKLY;WKST=SU;BYDAY=MO,WE";
    assert_eq!(
        RRule::parse(s, 0),
        Ok(RRule::WeeklyByDay(WeeklyByDay {
            day: ByDay::Simple(vec![Weekday::Mon, Weekday::Wed]),
            common_options: options(s, None, None, None)
        }))
    );
    let s = "FREQ=WEEKLY;UNTIL=20220301T120000Z";
    assert_eq!(
        RRule::parse(s, 3600),
        Ok(RRule::Weekly(Weekly {
            common_options: options(
                s,
                Some(DateOrDateTime::DateTime(moment(2022, 3, 1, 12, 0, 0))),
                None,
                None
            )
        }))
    );
    let s = "FREQ=DAILY;BYMONTH=3;BYDAY=MO;COUNT=0";
    assert_eq!(
        RRule::parse(s, 0),
        Ok(RRule::Daily(Daily {
            common_options: options(s, None, None, Some(0))
        }))
    );
}

#[test]
fn rule_until_in_local_time() {
    // one hour ahead of UTC: local noon is eleven o'clock in UTC
    let s = "FREQ=DAILY;UNTIL=20220301T120000";
    let rule = RRule::parse(s, 3600).unwrap();
    assert_eq!(
        rule.common_options().until,
        Some(DateOrDateTime::DateTime(moment(2022, 3, 1, 11, 0, 0)))
    );
    // a whole day is taken at local midnight
    let rule = RRule::parse("FREQ=DAILY;UNTIL=20220301", 3600).unwrap();
    assert_eq!(
        rule.common_options().until,
        Some(DateOrDateTime::WholeDay(moment(2022, 2, 28, 23, 0, 0)))
    );
    let rule = RRule::parse("FREQ=DAILY;UNTIL=20220301", 0).unwrap();
    assert_eq!(
        rule.common_options().until,
        Some(DateOrDateTime::WholeDay(moment(2022, 3, 1, 0, 0, 0)))
    );
}

#[test]
fn rule_errors() {
    let s = "INTERVAL=2;FREQ=DAILY";
    assert_eq!(
        RRule::parse(s, 0),
        Err(RRuleParseError::MissingFrequencyToken {
            line: s.to_string()
        })
    );
    assert_eq!(
        RRule::parse("", 0),
        Err(RRuleParseError::MissingFrequencyToken {
            line: String::new()
        })
    );
    assert_eq!(
        RRule::parse("FREQ=HOURLY;COUNT=2", 0),
        Err(RRuleParseError::FrequencyParseError {
            err: FrequencyParseError::UnrecognizedFrequency {
                freq: "HOURLY".to_string()
            }
        })
    );
    let s = "FREQ=YEARLY;BYMONTH=3";
    assert_eq!(
        RRule::parse(s, 0),
        Err(RRuleParseError::MissingrNextTokenAfterByMonth {
            line: s.to_string()
        })
    );
    let s = "FREQ=MONTHLY;COUNT=3";
    assert_eq!(
        RRule::parse(s, 0),
        Err(RRuleParseError::MissingByDayOrByMonthDayError {
            line: s.to_string()
        })
    );
    assert_eq!(
        RRule::parse("FREQ=DAILY;COUNT=-1", 0),
        Err(RRuleParseError::ParseIntError)
    );
    assert_eq!(
        RRule::parse("FREQ=DAILY;INTERVAL=0", 0),
        Err(RRuleParseError::ParseIntError)
    );
    assert_eq!(
        RRule::parse("FREQ=DAILY;INTERVAL=4294967296", 0),
        Err(RRuleParseError::ParseIntError)
    );
    assert_eq!(
        RRule::parse("FREQ=YEARLY;BYMONTH=256;BYMONTHDAY=1", 0),
        Err(RRuleParseError::ParseIntError)
    );
    assert_eq!(
        RRule::parse("FREQ=DAILY;UNTIL=2022-03-01", 0),
        Err(RRuleParseError::ParseDateOrDatetTimeError(
            DateTimeParseError::InvalidFormat
        ))
    );
    assert_eq!(
        RRule::parse("FREQ=DAILY;UNTIL=20220230", 0),
        Err(RRuleParseError::ParseDateOrDatetTimeError(
            DateTimeParseError::NoSuchDateTime
        ))
    );
    let s = "FREQ=WEEKLY;BYDAY=MO,XY";
    assert_eq!(
        RRule::parse(s, 0),
        Err(RRuleParseError::ByDayParserError {
            error: ByDayParseError::InvalidWeekday {
                w: "XY".to_string()
            },
            line: s.to_string()
        })
    );
    // the first key that is malformed is the error
    assert_eq!(
        RRule::parse("FREQ=WEEKLY;BYDAY=MO,XY;COUNT=x", 0),
        Err(RRuleParseError::ParseIntError)
    );
}

#[test]
fn rule_takes_a_key_where_it_first_stands() {
    let rule = RRule::parse("FREQ=DAILY;COUNT=+7;COUNT=9;INTERVAL=3", 0).unwrap();
    assert_eq!(rule.common_options().count, Some(7));
    assert_eq!(rule.common_options().interval, Some(3));
}

#[test]
fn rule_bounds() {
    let rule = RRule::parse("FREQ=DAILY;COUNT=3;UNTIL=20220301T120000Z", 0).unwrap();
    assert!(!rule.is_out_of_count(2));
    assert!(rule.is_out_of_count(3));
    assert!(rule.is_out_of_count(4));
    assert!(!rule.is_expired(DateOrDateTime::DateTime(moment(2022, 3, 1, 12, 0, 0))));
    assert!(rule.is_expired(DateOrDateTime::DateTime(moment(2022, 3, 1, 12, 0, 1))));
    assert!(!rule.is_expired(DateOrDateTime::WholeDay(moment(2022, 3, 1, 0, 0, 0))));
    assert!(rule.is_expired(DateOrDateTime::WholeDay(moment(2022, 3, 2, 0, 0, 0))));

    let unbounded = RRule::parse("FREQ=DAILY", 0).unwrap();
    assert!(!unbounded.is_out_of_count(u32::MAX));
    assert!(!unbounded.is_expired(DateOrDateTime::WholeDay(moment(9999, 1, 1, 0, 0, 0))));
    let daily = Daily {
        common_options: options("FREQ=DAILY;COUNT=1", None, None, Some(1)),
    };
    assert!(daily.is_out_of_count(1));
    assert_eq!(daily.common_options().raw, "FREQ=DAILY;COUNT=1");
}

#[test]
fn weekday_list_passes_over_empty_entries() {
    assert_eq!(
        ByDay::parse("MO,,FR,"),
        Ok(ByDay::Simple(vec![Weekday::Mon, Weekday::Fri]))
    );
    assert_eq!(ByDay::parse(""), Ok(ByDay::Simple(vec![])));
    assert_eq!(
        ByDay::parse("SU,MO,TU,WE,TH,FR,SA"),
        Ok(ByDay::Simple(vec![
            Weekday::Sun,
            Weekday::Mon,
            Weekday::Tue,
            Weekday::Wed,
            Weekday::Thu,
            Weekday::Fri,
            Weekday::Sat
        ]))
    );
    assert_eq!(
        ByDay::parse("M"),
        Err(ByDayParseError::InvalidWeekday {
            w: "M".to_string()
        })
    );
}

#[test]
fn counted_weekday_text() {
    assert_eq!("+3TH".parse::<Delta>(), Ok(Delta::new(3, Weekday::Thu)));
    assert_eq!(
        Delta::parse("-2147483648WE"),
        Ok(Delta::new(i32::MIN, Weekday::Wed))
    );
    assert_eq!(
        Delta::parse("2147483648WE"),
        Err(ByDayParseError::InvalidDelta)
    );
    assert_eq!(Delta::parse("TU"), Err(ByDayParseError::InvalidDelta));
    assert_eq!(
        Delta::parse("U"),
        Err(ByDayParseError::InvalidWeekday {
            w: "U".to_string()
        })
    );
    assert_eq!(
        Delta::parse("2Fr"),
        Err(ByDayParseError::InvalidWeekday {
            w: "Fr".to_string()
        })
    );
}
