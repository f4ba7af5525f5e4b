use ical_events::{ByDay, ByDayParseError, Delta, Weekday};

#[test]
fn by_day_parse_00() {
    let s = "MO,TU,FR";
    let parsed: ByDay = s.parse().unwrap();
    assert_eq!(
        parsed,
        ByDay::Simple(vec![Weekday::Mon, Weekday::Tue, Weekday::Fri])
    );
}

#[test]
fn parse_delta() {
    let first: ByDay = "-20MO".parse().unwrap();
    assert_eq!(first, ByDay::Delta(Delta::new(-20, Weekday::Mon)));
    let second: ByDay = "30FR".parse().unwrap();
    assert_eq!(second, ByDay::Delta(Delta::new(30, Weekday::Fri)));
}

#[test]
fn parse_last_sunday_and_second_friday() {
    assert_eq!(
        ByDay::parse("-1SU").unwrap(),
        ByDay::Delta(Delta::new(-1, Weekday::Sun))
    );
    assert_eq!(
        ByDay::parse("2FR").unwrap(),
        ByDay::Delta(Delta::new(2, Weekday::Fri))
    );
}

#[test]
fn parse_rejects_unknown_weekday() {
    assert_eq!(
        ByDay::parse("MO,XX"),
        Err(ByDayParseError::InvalidWeekday {
            w: "XX".to_string()
        })
    );
    assert_eq!(
        ByDay::parse("2XX"),
        Err(ByDayParseError::InvalidWeekday {
            w: "XX".to_string()
        })
    );
}

#[test]
fn parse_rejects_malformed_count() {
    assert_eq!(ByDay::parse("x2FR"), Err(ByDayParseError::InvalidDelta));
    assert_eq!(ByDay::parse("99999999999FR"), Err(ByDayParseError::InvalidDelta));
}
