use ical_events::{
    Block, BlockParseError, ByDay, DateOrDateTime, DateTimeParseError, Delta, EventOverlap,
    ICalLineParser, RRule, RRuleParseError, TzIdDateTimeFormatError, UtcDateTime, VCalendar,
    VCalendarParseError, VEvent, VEventFormatError, VTimezone, VTimezoneOffset,
    VTimezoneOffsetParseError, VTimezoneParseError, Weekday,
};

fn moment(year: i32, month: u32, day: u32, hour: u32, minute: u32, second: u32) -> UtcDateTime {
    UtcDateTime {
        year,
        month,
        day,
        hour,
        minute,
        second,
    }
}

fn lines(text: &[&str]) -> Vec<String> {
    text.iter().map(|line| line.to_string()).collect()
}

fn block(name: &str, inner_lines: &[&str]) -> Block {
    Block {
        name: name.to_string(),
        inner_lines: lines(inner_lines),
        inner_blocks: Vec::new(),
    }
}

const CALENDAR: &str = "BEGIN:VCALENDAR\r\n\
PRODID:-//Example//Calendar//EN\r\n\
VERSION:2.0\r\n\
BEGIN:VTIMEZONE\r\n\
TZID:Europe/Rome\r\n\
X-LIC-LOCATION:Europe/Rome\r\n\
BEGIN:DAYLIGHT\r\n\
TZOFFSETFROM:+0100\r\n\
TZOFFSETTO:+0200\r\n\
TZNAME:CEST\r\n\
DTSTART:19700329T020000\r\n\
RRULE:FREQ=YEARLY;BYMONTH=3;BYDAY=-1SU\r\n\
END:DAYLIGHT\r\n\
BEGIN:STANDARD\r\n\
TZOFFSETFROM:+0200\r\n\
TZOFFSETTO:+0100\r\n\
TZNAME:CET\r\n\
DTSTART:19701025T030000\r\n\
END:STANDARD\r\n\
END:VTIMEZONE\r\n\
BEGIN:VEVENT\r\n\
DTSTART;TZID=Europe/Rome:20220207T100000\r\n\
DTEND;TZID=Europe/Rome:20220207T110000\r\n\
RRULE:FREQ=WEEKLY;BYDAY=MO,WE\r\n\
EXDATE;TZID=Europe/Rome:20220209T100000\r\n\
DTSTAMP:20220101T000000Z\r\n\
CREATED:20220101T000000Z\r\n\
LAST-MODIFIED:20220102T000000Z\r\n\
SEQUENCE:3\r\n\
STATUS:CONFIRMED\r\n\
SUMMARY:Team mee\r\n \
ting; wee\r\n \
kly\r\n\
ORGANIZER;CN=Boss:mailto:boss@example.com\r\n\
DESCRIPTION:\r\n\
END:VEVENT\r\n\
BEGIN:VEVENT\r\n\
DTSTART:20220301T120000Z\r\n\
DTSTAMP:20220101T000000Z\r\n\
CREATED:20220101T000000Z\r\n\
LAST-MODIFIED:20220102T000000Z\r\n\
SEQUENCE:0\r\n\
SUMMARY:Once\r\n\
X-GOOGLE-CONFERENCE:https://meet.example.com/abc\r\n\
END:VEVENT\r\n\
END:VCALENDAR\r\n";

#[test]
fn logical_lines_take_their_continuations() {
    let raw = ["SUMMARY:Team mee", " ting", " ", "  x", "STATUS:CONFIRMED", ""];
    let mut parser = ICalLineParser::new(&raw);
    assert_eq!(parser.position, 0);
    assert_eq!(parser.next(), Some("SUMMARY:Team meeting x".to_string()));
    assert_eq!(parser.position, 4);
    assert_eq!(parser.next(), Some("STATUS:CONFIRMED".to_string()));
    assert_eq!(parser.next(), Some(String::new()));
    assert_eq!(parser.position, 6);
    assert_eq!(parser.next(), None);
    assert_eq!(parser.next(), None);
    assert_eq!(parser.position, 6);
}

#[test]
fn a_first_line_that_begins_with_a_space_is_a_line_of_its_own() {
    let raw = [" first", " second", "third"];
    let mut parser = ICalLineParser::new(&raw);
    assert_eq!(parser.next(), Some(" firstsecond".to_string()));
    assert_eq!(parser.next(), Some("third".to_string()));
    assert_eq!(parser.next(), None);
    let none: [&str; 0] = [];
    assert_eq!(ICalLineParser::new(&none).next(), None);
}

#[test]
fn blocks_nest() {
    let text = lines(&[
        "BEGIN:OUTER",
        "A:1",
        "BEGIN:INNER",
        "B:2",
        "BEGIN:INNERMOST",
        "C:3",
        "END:INNERMOST",
        "D:4",
        "END:INNER",
        "E:5",
        "BEGIN:SECOND",
        "END:SECOND",
        "END:OUTER",
        "F:6",
    ]);
    let outer = Block::try_from(text.as_slice()).unwrap();
    assert_eq!(outer.name(), "OUTER");
    assert_eq!(outer.inner_lines, lines(&["A:1", "E:5"]));
    assert_eq!(outer.inner_blocks.len(), 2);
    let inner = &outer.inner_blocks[0];
    assert_eq!(inner.name(), "INNER");
    assert_eq!(inner.inner_lines, lines(&["B:2", "D:4"]));
    assert_eq!(inner.inner_blocks.len(), 1);
    assert_eq!(inner.inner_blocks[0].name(), "INNERMOST");
    assert_eq!(inner.inner_blocks[0].inner_lines, lines(&["C:3"]));
    assert!(inner.inner_blocks[0].inner_blocks.is_empty());
    assert_eq!(outer.inner_blocks[1].name(), "SECOND");
    assert!(outer.inner_blocks[1].inner_lines.is_empty());

    let copy = outer.duplicate();
    assert_eq!(copy.name, outer.name);
    assert_eq!(copy.inner_lines, outer.inner_lines);
    assert_eq!(copy.inner_blocks.len(), 2);
    assert_eq!(copy.inner_blocks[0].inner_blocks[0].inner_lines, lines(&["C:3"]));
}

#[test]
fn a_block_begins_with_begin() {
    assert_eq!(
        Block::try_from(lines(&["A:1", "BEGIN:X", "END:X"]).as_slice()).unwrap_err(),
        BlockParseError::BlockNotStartingWithBEGIN
    );
    let none: Vec<String> = Vec::new();
    assert_eq!(
        Block::try_from(none.as_slice()).unwrap_err(),
        BlockParseError::BlockNotStartingWithBEGIN
    );
    let alone = Block::try_from(lines(&["BEGIN:"]).as_slice()).unwrap();
    assert_eq!(alone.name(), "");
    assert!(alone.inner_lines.is_empty() && alone.inner_blocks.is_empty());
}

#[test]
fn a_calendar_from_its_text() {
    let calendar = VCalendar::parse(CALENDAR, 0).unwrap();
    assert_eq!(calendar.timezones.len(), 1);
    assert_eq!(calendar.events.len(), 2);

    let zone = &calendar.timezones[0];
    assert_eq!(zone.tz_id, "Europe/Rome");
    assert_eq!(zone.offsets.len(), 2);
    assert_eq!(zone.offsets[0].tz_name, "CEST");
    assert_eq!(zone.offsets[0].tz_offset_from, "+0100");
    assert_eq!(zone.offsets[0].tz_offset_to, "+0200");
    assert_eq!(zone.offsets[0].dt_start, moment(1970, 3, 29, 0, 0, 0));
    match &zone.offsets[0].rrule {
        Some(RRule::YearlyByMonthByDay(rule)) => {
            assert_eq!(rule.month, 3);
            assert_eq!(rule.day, ByDay::Delta(Delta::new(-1, Weekday::Sun)));
        }
        other => panic!("not the rule of the text: {other:?}"),
    }
    assert_eq!(zone.offsets[1].tz_name, "CET");
    assert_eq!(zone.offsets[1].dt_start, moment(1970, 10, 25, 0, 0, 0));
    assert!(zone.offsets[1].rrule.is_none());

    let weekly = &calendar.events[0];
    assert_eq!(weekly.summary, "Team meeting; weekly");
    assert_eq!(
        weekly.dt_start,
        DateOrDateTime::DateTime(moment(2022, 2, 7, 9, 0, 0))
    );
    assert_eq!(
        weekly.dt_end,
        DateOrDateTime::DateTime(moment(2022, 2, 7, 10, 0, 0))
    );
    assert_eq!(
        weekly.dt_last_modified,
        DateOrDateTime::DateTime(moment(2022, 1, 2, 0, 0, 0))
    );
    assert_eq!(weekly.sequence, 3);
    assert_eq!(weekly.status.as_deref(), Some("CONFIRMED"));
    assert_eq!(
        weekly.organizer.as_deref(),
        Some("CN=Boss:mailto:boss@example.com")
    );
    assert_eq!(weekly.description, None);
    assert_eq!(weekly.google_conference_url, None);
    assert_eq!(weekly.exdates.len(), 1);
    assert_eq!(weekly.exdates[0].time_zone, "Europe/Rome");
    assert!(matches!(weekly.rrule, Some(RRule::WeeklyByDay(_))));

    let once = &calendar.events[1];
    assert_eq!(once.summary, "Once");
    assert_eq!(once.dt_end, once.dt_start);
    assert_eq!(
        once.google_conference_url.as_deref(),
        Some("https://meet.example.com/abc")
    );
    assert!(once.rrule.is_none() && once.exdates.is_empty());

    // Wednesday 9 February is left out
    let found = weekly
        .next_occurrence_since(DateOrDateTime::WholeDay(moment(2022, 2, 8, 0, 0, 0)))
        .unwrap()
        .unwrap();
    assert_eq!(
        found.occurrence.start,
        DateOrDateTime::DateTime(moment(2022, 2, 14, 9, 0, 0))
    );
    assert_eq!(found.event_overlap, EventOverlap::StartsFuture);
}

#[test]
fn local_moments_of_a_calendar_follow_the_offset() {
    let calendar = VCalendar::parse(
        "BEGIN:VCALENDAR\r\nBEGIN:VEVENT\r\nDTSTART:20220301T120000\r\nDTEND:20220302\r\n\
DTSTAMP:20220101T000000Z\r\nCREATED:20220101T000000Z\r\nLAST-MODIFIED:20220102T000000Z\r\n\
SEQUENCE:+1\r\nSUMMARY:Local\r\nEND:VEVENT\r\nEND:VCALENDAR",
        -3600,
    )
    .unwrap();
    let event = &calendar.events[0];
    assert_eq!(
        event.dt_start,
        DateOrDateTime::DateTime(moment(2022, 3, 1, 13, 0, 0))
    );
    assert_eq!(
        event.dt_end,
        DateOrDateTime::WholeDay(moment(2022, 3, 2, 1, 0, 0))
    );
    assert_eq!(event.sequence, 1);
}

#[test]
fn calendar_errors() {
    assert!(matches!(
        VCalendar::parse("VERSION:2.0\r\nBEGIN:VCALENDAR\r\nEND:VCALENDAR", 0),
        Err(VCalendarParseError::BlockParseError(
            BlockParseError::BlockNotStartingWithBEGIN
        ))
    ));
    match VCalendar::parse("BEGIN:VCALENDAR\r\nBEGIN:VJOURNAL\r\nEND:VJOURNAL\r\nEND:VCALENDAR", 0) {
        Err(VCalendarParseError::UnsupportedTagError { tag }) => assert_eq!(tag, "VJOURNAL"),
        other => panic!("not the error of the text: {other:?}"),
    }
    assert!(matches!(
        VCalendar::parse(
            "BEGIN:VCALENDAR\r\nBEGIN:VTIMEZONE\r\nEND:VTIMEZONE\r\nEND:VCALENDAR",
            0
        ),
        Err(VCalendarParseError::VTimezoneParseError(
            VTimezoneParseError::TZIDTagNotFound
        ))
    ));
    match VCalendar::parse(
        "BEGIN:VCALENDAR\r\nBEGIN:VEVENT\r\nSUMMARY:x\r\nEND:VEVENT\r\nEND:VCALENDAR",
        0,
    ) {
        Err(VCalendarParseError::VEventFormatError(
            VEventFormatError::MissingMandatoryField { block, field },
        )) => {
            assert_eq!(field, "DTSTART");
            assert_eq!(block.name(), "VEVENT");
            assert_eq!(block.inner_lines, lines(&["SUMMARY:x"]));
        }
        other => panic!("not the error of the text: {other:?}"),
    }
    let empty = VCalendar::parse("BEGIN:VCALENDAR\r\nEND:VCALENDAR\r\n", 0).unwrap();
    assert!(empty.events.is_empty() && empty.timezones.is_empty());
}

#[test]
fn event_errors() {
    let complete = [
        "DTSTART:20220301T120000Z",
        "DTSTAMP:20220101T000000Z",
        "CREATED:20220101T000000Z",
        "LAST-MODIFIED:20220102T000000Z",
        "SEQUENCE:0",
        "SUMMARY:Once",
    ];
    assert!(VEvent::try_from(&block("VEVENT", &complete), 0).is_ok());

    for (missing, field) in [
        (0, "DTSTART"),
        (1, "DTSTAMP"),
        (2, "CREATED"),
        (3, "LAST-MODIFIED"),
        (4, "SEQUENCE"),
        (5, "SUMMARY"),
    ] {
        let mut some = complete.to_vec();
        some.remove(missing);
        match VEvent::try_from(&block("VEVENT", &some), 0) {
            Err(VEventFormatError::MissingMandatoryField { field: found, .. }) => {
                assert_eq!(found, field)
            }
            other => panic!("not the error of the text: {other:?}"),
        }
    }

    let with = |line: &'static str| {
        let mut all = complete.to_vec();
        all.push(line);
        VEvent::try_from(&block("VEVENT", &all), 0)
    };
    assert!(matches!(
        with("SUMMARY:"),
        Err(VEventFormatError::MissingColon { .. })
    ));
    assert!(matches!(
        with("RRULE"),
        Err(VEventFormatError::MissingColon { .. })
    ));
    assert!(matches!(
        with("ORGANIZER"),
        Err(VEventFormatError::MissingColon { .. })
    ));
    assert!(matches!(
        with("EXDATE;"),
        Err(VEventFormatError::MissingSemicolon { .. })
    ));
    assert!(matches!(
        with("DTEND;"),
        Err(VEventFormatError::MissingSemicolon { .. })
    ));
    assert!(matches!(
        with("SEQUENCE:-1"),
        Err(VEventFormatError::SequenceParseIntError { .. })
    ));
    assert!(matches!(
        with("RRULE:FREQ=MONTHLY"),
        Err(VEventFormatError::RRuleParseError(
            RRuleParseError::MissingByDayOrByMonthDayError { .. }
        ))
    ));
    assert!(matches!(
        with("EXDATE;20220301"),
        Err(VEventFormatError::TzIdDateTimeFormatError(
            TzIdDateTimeFormatError::MissingTZIDToken
        ))
    ));
    assert!(matches!(
        with("DTEND:20220230"),
        Err(VEventFormatError::ChronoParseError(
            DateTimeParseError::NoSuchDateTime
        ))
    ));
    // a sequence number with nothing after its colon takes the number away
    assert!(matches!(
        with("SEQUENCE:"),
        Err(VEventFormatError::MissingMandatoryField { .. })
    ));
    let described = with("DESCRIPTION:a: b; c").unwrap();
    assert_eq!(described.description.as_deref(), Some("a: b; c"));
}

#[test]
fn time_zone_errors() {
    let zone = Block {
        name: "VTIMEZONE".to_string(),
        inner_lines: lines(&["TZID:Europe/Rome", "TZID:Europe/Paris"]),
        inner_blocks: vec![block(
            "STANDARD",
            &["TZNAME:CET", "TZOFFSETFROM:+0200", "TZOFFSETTO:+0100"],
        )],
    };
    match VTimezone::try_from(&zone, 0) {
        Err(VTimezoneParseError::VTimezoneOffsetParseError(
            VTimezoneOffsetParseError::MissingMandatoryField { field, block },
        )) => {
            assert_eq!(field, "DTSTART");
            assert_eq!(block.name(), "STANDARD");
        }
        other => panic!("not the error of the block: {other:?}"),
    }
    for (missing, field) in [(0, "TZNAME"), (1, "TZOFFSETFROM"), (2, "TZOFFSETTO")] {
        let mut some = vec![
            "TZNAME:CET",
            "TZOFFSETFROM:+0200",
            "TZOFFSETTO:+0100",
            "DTSTART:19701025T030000",
        ];
        some.remove(missing);
        match VTimezoneOffset::try_from(&block("STANDARD", &some), 0) {
            Err(VTimezoneOffsetParseError::MissingMandatoryField { field: found, .. }) => {
                assert_eq!(found, field)
            }
            other => panic!("not the error of the block: {other:?}"),
        }
    }
    match VTimezoneOffset::try_from(&block("STANDARD", &["TZNAME:CET", "COMMENT:x"]), 0) {
        Err(VTimezoneOffsetParseError::UnsupportedTag { tag, .. }) => assert_eq!(tag, "COMMENT"),
        other => panic!("not the error of the block: {other:?}"),
    }
    assert!(matches!(
        VTimezoneOffset::try_from(&block("STANDARD", &["DTSTART:19701025"]), 0),
        Err(VTimezoneOffsetParseError::InvalidStart(
            DateTimeParseError::InvalidFormat
        ))
    ));
    assert!(matches!(
        VTimezoneOffset::try_from(&block("STANDARD", &["RRULE:FREQ=NEVER"]), 0),
        Err(VTimezoneOffsetParseError::InvalidRule(
            RRuleParseError::FrequencyParseError { .. }
        ))
    ));
    let named = VTimezoneOffset::try_from(
        &block(
            "STANDARD",
            &[
                "TZNAME:a:b",
                "TZOFFSETFROM",
                "TZOFFSETTO:",
                "DTSTART:19701025T030000",
            ],
        ),
        0,
    )
    .unwrap();
    assert_eq!(named.tz_name, "a:b");
    assert_eq!(named.tz_offset_from, "");
    assert_eq!(named.tz_offset_to, "");

    let first = VTimezone::try_from(
        &Block {
            name: "VTIMEZONE".to_string(),
            inner_lines: lines(&["X:1", "TZID:Europe/Rome", "TZID:Europe/Paris"]),
            inner_blocks: Vec::new(),
        },
        0,
    )
    .unwrap();
    assert_eq!(first.tz_id, "Europe/Rome");
}

#[test]
fn a_block_is_cloned_with_all_it_holds() {
    let outer = Block {
        name: "OUTER".to_string(),
        inner_lines: lines(&["A:1"]),
        inner_blocks: vec![block("INNER", &["B:2", "C:3"])],
    };
    let copy = outer.clone();
    assert_eq!(copy.name, "OUTER");
    assert_eq!(copy.inner_lines, lines(&["A:1"]));
    assert_eq!(copy.inner_blocks.len(), 1);
    assert_eq!(copy.inner_blocks[0].name, "INNER");
    assert_eq!(copy.inner_blocks[0].inner_lines, lines(&["B:2", "C:3"]));
}
