use chrono::{DateTime, Datelike, Duration, NaiveDateTime, TimeZone, Timelike, Utc};
use ical_events::moment_weekdays::weekday_of;
use ical_events::{
    DateIntersectError, DateOrDateTime, Delta, EventOverlap, SubstitutionError, UtcDateTime,
    Weekday, MAX_YEAR, MIN_YEAR,
};

fn utc(dt: DateTime<Utc>) -> UtcDateTime {
    UtcDateTime {
        year: dt.year(),
        month: dt.month(),
        day: dt.day(),
        hour: dt.hour(),
        minute: dt.minute(),
        second: dt.second(),
    }
}

fn at(year: i32, month: u32, day: u32, hour: u32, minute: u32, second: u32) -> UtcDateTime {
    UtcDateTime {
        year,
        month,
        day,
        hour,
        minute,
        second,
    }
}

fn local(text: &str, format: &str) -> UtcDateTime {
    utc(Utc
        .from_local_datetime(&NaiveDateTime::parse_from_str(text, format).unwrap())
        .unwrap())
}

fn zulu(text: &str, format: &str) -> UtcDateTime {
    utc(DateTime::parse_from_str(text, format)
        .unwrap()
        .with_timezone(&Utc))
}

#[test]
fn inc_month_simple() {
    let date: DateOrDateTime = DateOrDateTime::WholeDay(local("20220205T000000", "%Y%m%dT%H%M%S"));
    let date_time: DateOrDateTime = DateOrDateTime::WholeDay(local("20220205T000000", "%Y%m%dT%H%M%S"));

    let next = date.inc_month(1);
    assert_eq!(date.year(), next.year());
    assert_eq!(date.month() + 1, next.month());

    let next = date_time.inc_month(12);
    assert_eq!(date_time.year() + 1, next.year());
    assert_eq!(date_time.month(), next.month());
}

#[test]
fn next_weekday() {
    let date: DateOrDateTime = DateOrDateTime::WholeDay(local("20220205T000000", "%Y%m%dT%H%M%S")); //SAT

    assert_eq!(
        date.plus_seconds(Duration::days(6).num_seconds()),
        date.next_weekday(Weekday::Fri)
    );
    assert_eq!(
        date.plus_seconds(Duration::days(1).num_seconds()),
        date.next_weekday(Weekday::Sun)
    );
    assert_eq!(
        date.plus_seconds(Duration::days(7).num_seconds()),
        date.next_weekday(Weekday::Sat)
    );
    assert!(date.next_weekday(Weekday::Sat).is_some());
}

#[test]
fn next_weekdays() {
    let date: DateOrDateTime = DateOrDateTime::WholeDay(local("20220205T000000", "%Y%m%dT%H%M%S")); //SAT

    assert_eq!(
        date.plus_seconds(Duration::days(1).num_seconds()),
        date.next_weekdays(&[Weekday::Fri, Weekday::Sun])
    );
    assert_eq!(
        date.plus_seconds(Duration::days(6).num_seconds()),
        date.next_weekdays(&[Weekday::Fri])
    );
    assert_eq!(
        date.plus_seconds(Duration::days(6).num_seconds()),
        date.next_weekdays(&[Weekday::Fri, Weekday::Sat])
    );
    assert_eq!(
        date.plus_seconds(Duration::days(2).num_seconds()),
        date.next_weekdays(&[Weekday::Mon, Weekday::Fri])
    );
    assert_eq!(
        Some(DateOrDateTime::WholeDay(at(2022, 2, 7, 0, 0, 0))),
        date.next_weekdays(&[Weekday::Mon, Weekday::Fri])
    );
}

#[test]
fn next_weekdays_of_none_is_nothing() {
    let date = DateOrDateTime::DateTime(at(2022, 2, 5, 9, 30, 0));
    assert_eq!(date.next_weekdays(&[]), None);
}

#[test]
fn next_weekdays_keeps_kind_and_time_of_day() {
    let date = DateOrDateTime::DateTime(at(2022, 2, 28, 9, 30, 15));
    assert_eq!(
        date.next_weekdays(&[Weekday::Tue]),
        Some(DateOrDateTime::DateTime(at(2022, 3, 1, 9, 30, 15)))
    );
}

#[test]
fn move_by_day() {
    let date: DateOrDateTime = DateOrDateTime::WholeDay(local("20220205T000000", "%Y%m%dT%H%M%S"));

    let first_sunday = date.move_by_delta(&Delta::new(1, Weekday::Sun)).unwrap();
    assert_eq!(first_sunday.day(), 6);

    let last_sunday = date.move_by_delta(&Delta::new(-1, Weekday::Sun)).unwrap();
    assert_eq!(last_sunday.day(), 27);
    assert_eq!(last_sunday, DateOrDateTime::WholeDay(at(2022, 2, 27, 0, 0, 0)));
}

#[test]
fn move_by_delta_counts_within_the_month() {
    let date = DateOrDateTime::DateTime(at(2022, 2, 5, 18, 0, 0));
    // February 2022 starts on a Tuesday and has four of every weekday.
    assert_eq!(
        date.move_by_delta(&Delta::new(1, Weekday::Tue)),
        Some(DateOrDateTime::DateTime(at(2022, 2, 1, 18, 0, 0)))
    );
    assert_eq!(
        date.move_by_delta(&Delta::new(4, Weekday::Mon)),
        Some(DateOrDateTime::DateTime(at(2022, 2, 28, 18, 0, 0)))
    );
    assert_eq!(
        date.move_by_delta(&Delta::new(-4, Weekday::Mon)),
        Some(DateOrDateTime::DateTime(at(2022, 2, 7, 18, 0, 0)))
    );
    assert_eq!(date.move_by_delta(&Delta::new(5, Weekday::Mon)), None);
    assert_eq!(date.move_by_delta(&Delta::new(-5, Weekday::Mon)), None);
    assert_eq!(date.move_by_delta(&Delta::new(0, Weekday::Mon)), None);
    assert_eq!(date.move_by_delta(&Delta::new(i32::MIN, Weekday::Mon)), None);
    // July 2022 has five Fridays.
    let july = DateOrDateTime::WholeDay(at(2022, 7, 15, 0, 0, 0));
    assert_eq!(
        july.move_by_delta(&Delta::new(5, Weekday::Fri)),
        Some(DateOrDateTime::WholeDay(at(2022, 7, 29, 0, 0, 0)))
    );
    assert_eq!(
        july.move_by_delta(&Delta::new(-5, Weekday::Fri)),
        Some(DateOrDateTime::WholeDay(at(2022, 7, 1, 0, 0, 0)))
    );
}

#[test]
fn check_intersects_date() {
    let e: DateOrDateTime =
        DateOrDateTime::WholeDay(utc(Utc.with_ymd_and_hms(2022, 2, 10, 0, 0, 0).unwrap()));

    let dt_start = DateOrDateTime::DateTime(zulu("20220201T103000Z", "%Y%m%dT%H%M%S%#z"));
    let dt_end = DateOrDateTime::DateTime(zulu("20220205T103000Z", "%Y%m%dT%H%M%S%#z"));
    assert_eq!(
        e.intersects(dt_start, dt_end).unwrap(),
        EventOverlap::FinishesPast
    );

    let dt_start = DateOrDateTime::DateTime(zulu("20300201T103000Z", "%Y%m%dT%H%M%S%#z"));
    let dt_end = DateOrDateTime::DateTime(zulu("20390205T103000Z", "%Y%m%dT%H%M%S%#z"));
    assert_eq!(
        e.intersects(dt_start, dt_end).unwrap(),
        EventOverlap::StartsFuture
    );

    let dt_start = DateOrDateTime::DateTime(zulu("20220201T103000Z", "%Y%m%dT%H%M%S%#z"));
    let dt_end = DateOrDateTime::DateTime(zulu("20390205T103000Z", "%Y%m%dT%H%M%S%#z"));
    assert_eq!(
        e.intersects(dt_start, dt_end).unwrap(),
        EventOverlap::StartsPastEndsFuture
    );

    let dt_start = DateOrDateTime::DateTime(zulu("20220201T103000Z", "%Y%m%dT%H%M%S%#z"));
    let dt_end = DateOrDateTime::DateTime(zulu("20220210T103000Z", "%Y%m%dT%H%M%S%#z"));
    assert_eq!(
        e.intersects(dt_start, dt_end).unwrap(),
        EventOverlap::StartsPastEndsSameDay
    );

    let dt_start = DateOrDateTime::DateTime(zulu("20220201T103000Z", "%Y%m%dT%H%M%S%#z"));
    let dt_end = DateOrDateTime::DateTime(zulu("20220210T103000Z", "%Y%m%dT%H%M%S%#z"));
    assert_eq!(
        e.intersects(dt_start, dt_end).unwrap(),
        EventOverlap::StartsPastEndsSameDay
    );

    let dt_start = DateOrDateTime::DateTime(zulu("20220210T103000Z", "%Y%m%dT%H%M%S%#z"));
    let dt_end = DateOrDateTime::DateTime(zulu("20220210T183000Z", "%Y%m%dT%H%M%S%#z"));
    assert_eq!(
        e.intersects(dt_start, dt_end).unwrap(),
        EventOverlap::StartSameDayEndsSameDay
    );

    let dt_start = DateOrDateTime::DateTime(zulu("20220210T103000Z", "%Y%m%dT%H%M%S%#z"));
    let dt_end = DateOrDateTime::DateTime(zulu("20250210T183000Z", "%Y%m%dT%H%M%S%#z"));
    assert_eq!(
        e.intersects(dt_start, dt_end).unwrap(),
        EventOverlap::StartsSameDayEndsFuture
    );

    // Date instead of DateTime
    let dt_start = DateOrDateTime::WholeDay(zulu("20220210T103000Z", "%Y%m%dT%H%M%S%#z"));
    let dt_end = DateOrDateTime::WholeDay(zulu("20250210T183000Z", "%Y%m%dT%H%M%S%#z"));
    assert_eq!(
        e.intersects(dt_start, dt_end).unwrap(),
        EventOverlap::StartsSameDayEndsFuture
    );

    let dt_start = DateOrDateTime::WholeDay(zulu("20220201T103000Z", "%Y%m%dT%H%M%S%#z"));
    let dt_end = DateOrDateTime::WholeDay(zulu("20220210T103000Z", "%Y%m%dT%H%M%S%#z"));
    assert_eq!(
        e.intersects(dt_start, dt_end).unwrap(),
        EventOverlap::StartsPastEndsSameDay
    );

    let dt_start = DateOrDateTime::WholeDay(zulu("20220210T103000Z", "%Y%m%dT%H%M%S%#z"));
    let dt_end = DateOrDateTime::WholeDay(zulu("20220210T183000Z", "%Y%m%dT%H%M%S%#z"));
    assert_eq!(
        e.intersects(dt_start, dt_end).unwrap(),
        EventOverlap::StartSameDayEndsSameDay
    );
}

#[test]
fn check_intersects_date_time() {
    // The reference is an instant, so the two ends are compared with it as instants, a
    // whole day among them at its midnight.
    let e: DateOrDateTime =
        DateOrDateTime::DateTime(utc(Utc.with_ymd_and_hms(2022, 2, 10, 8, 0, 0).unwrap()));

    let dt_start = DateOrDateTime::DateTime(zulu("20220201T103000Z", "%Y%m%dT%H%M%S%#z"));
    let dt_end = DateOrDateTime::DateTime(zulu("20220205T103000Z", "%Y%m%dT%H%M%S%#z"));
    assert_eq!(
        e.intersects(dt_start, dt_end).unwrap(),
        EventOverlap::FinishesPast
    );

    let dt_start = DateOrDateTime::DateTime(zulu("20300201T103000Z", "%Y%m%dT%H%M%S%#z"));
    let dt_end = DateOrDateTime::DateTime(zulu("20390205T103000Z", "%Y%m%dT%H%M%S%#z"));
    assert_eq!(
        e.intersects(dt_start, dt_end).unwrap(),
        EventOverlap::StartsFuture
    );

    let dt_start = DateOrDateTime::DateTime(zulu("20220201T103000Z", "%Y%m%dT%H%M%S%#z"));
    let dt_end = DateOrDateTime::DateTime(zulu("20390205T103000Z", "%Y%m%dT%H%M%S%#z"));
    assert_eq!(
        e.intersects(dt_start, dt_end).unwrap(),
        EventOverlap::StartsPastEndsFuture
    );

    let dt_start = DateOrDateTime::DateTime(zulu("20220201T103000Z", "%Y%m%dT%H%M%S%#z"));
    let dt_end = DateOrDateTime::DateTime(zulu("20220210T103000Z", "%Y%m%dT%H%M%S%#z"));
    assert_eq!(
        e.intersects(dt_start, dt_end).unwrap(),
        EventOverlap::StartsPastEndsFuture
    );

    let dt_start = DateOrDateTime::DateTime(zulu("20220210T103000Z", "%Y%m%dT%H%M%S%#z"));
    let dt_end = DateOrDateTime::DateTime(zulu("20220210T183000Z", "%Y%m%dT%H%M%S%#z"));
    assert_eq!(
        e.intersects(dt_start, dt_end).unwrap(),
        EventOverlap::StartsFuture
    );

    let dt_start = DateOrDateTime::DateTime(zulu("20220210T023000Z", "%Y%m%dT%H%M%S%#z"));
    let dt_end = DateOrDateTime::DateTime(zulu("20250210T183000Z", "%Y%m%dT%H%M%S%#z"));
    assert_eq!(
        e.intersects(dt_start, dt_end).unwrap(),
        EventOverlap::StartsPastEndsFuture
    );

    // Date instead of DateTime
    let dt_start = DateOrDateTime::WholeDay(zulu("20220210T103000Z", "%Y%m%dT%H%M%S%#z"));
    let dt_end = DateOrDateTime::WholeDay(zulu("20250210T183000Z", "%Y%m%dT%H%M%S%#z"));
    assert_eq!(
        e.intersects(dt_start, dt_end).unwrap(),
        EventOverlap::StartsPastEndsFuture
    );

    let dt_start = DateOrDateTime::WholeDay(zulu("20220201T103000Z", "%Y%m%dT%H%M%S%#z"));
    let dt_end = DateOrDateTime::WholeDay(zulu("20220210T103000Z", "%Y%m%dT%H%M%S%#z"));
    assert_eq!(
        e.intersects(dt_start, dt_end).unwrap(),
        EventOverlap::FinishesPast
    );

    let dt_start = DateOrDateTime::WholeDay(zulu("20220210T103000Z", "%Y%m%dT%H%M%S%#z"));
    let dt_end = DateOrDateTime::WholeDay(zulu("20220210T183000Z", "%Y%m%dT%H%M%S%#z"));
    assert_eq!(
        e.intersects(dt_start, dt_end).unwrap(),
        EventOverlap::FinishesPast
    );
}

#[test]
fn intersects_at_the_instant_itself() {
    let e = DateOrDateTime::DateTime(at(2022, 2, 10, 8, 0, 0));
    assert_eq!(e.intersects(e, e), Ok(EventOverlap::StartSameDayEndsSameDay));
    let later = DateOrDateTime::DateTime(at(2022, 2, 10, 8, 0, 1));
    assert_eq!(
        e.intersects(e, later),
        Ok(EventOverlap::StartsSameDayEndsFuture)
    );
    let earlier = DateOrDateTime::DateTime(at(2022, 2, 10, 7, 59, 59));
    assert_eq!(
        e.intersects(earlier, e),
        Ok(EventOverlap::StartsPastEndsSameDay)
    );
    // a whole day stands at its midnight
    let midnight = DateOrDateTime::DateTime(at(2022, 2, 10, 0, 0, 0));
    let day = DateOrDateTime::WholeDay(at(2022, 2, 10, 17, 0, 0));
    assert_eq!(
        midnight.intersects(day, day),
        Ok(EventOverlap::StartSameDayEndsSameDay)
    );
}

#[test]
fn intersects_itself_for_a_whole_day() {
    let e = DateOrDateTime::WholeDay(at(2024, 2, 29, 0, 0, 0));
    assert_eq!(e.intersects(e, e), Ok(EventOverlap::StartSameDayEndsSameDay));
}

#[test]
fn intersects_rejects_an_end_before_a_start_on_the_reference() {
    let day = DateOrDateTime::WholeDay(at(2022, 2, 10, 0, 0, 0));
    let start = DateOrDateTime::DateTime(at(2022, 2, 10, 10, 0, 0));
    let end = DateOrDateTime::DateTime(at(2022, 2, 9, 23, 0, 0));
    assert_eq!(
        day.intersects(start, end),
        Err(DateIntersectError::StartDateAfterEndDate)
    );

    let instant = DateOrDateTime::DateTime(at(2022, 2, 10, 10, 0, 0));
    let end = DateOrDateTime::DateTime(at(2022, 2, 10, 9, 59, 59));
    assert_eq!(
        instant.intersects(instant, end),
        Err(DateIntersectError::StartDateAfterEndDate)
    );
    // a start after the reference is in the future, whatever the end
    let start = DateOrDateTime::DateTime(at(2022, 2, 10, 10, 0, 1));
    assert_eq!(instant.intersects(start, end), Ok(EventOverlap::StartsFuture));
}

#[test]
fn whole_day_has_no_time_of_day() {
    let day = DateOrDateTime::WholeDay(at(2022, 2, 10, 10, 30, 59));
    assert_eq!(day.hour(), 0);
    assert_eq!(day.minute(), 0);
    assert_eq!(day.second(), 0);
    assert_eq!((day.year(), day.month(), day.day()), (2022, 2, 10));
    let instant = DateOrDateTime::DateTime(at(2022, 2, 10, 10, 30, 59));
    assert_eq!(
        (instant.hour(), instant.minute(), instant.second()),
        (10, 30, 59)
    );
}

#[test]
fn substitute_replaces_given_fields() {
    let instant = DateOrDateTime::DateTime(at(2022, 2, 10, 10, 30, 59));
    assert_eq!(
        instant.substitute(Some(2023), None, Some(1), Some(7), None, None),
        Ok(DateOrDateTime::DateTime(at(2023, 2, 1, 7, 30, 59)))
    );
    let day = DateOrDateTime::WholeDay(at(2022, 2, 10, 0, 0, 0));
    assert_eq!(
        day.substitute(None, Some(12), Some(31), None, None, None),
        Ok(DateOrDateTime::WholeDay(at(2022, 12, 31, 0, 0, 0)))
    );
}

#[test]
fn substitute_gives_a_whole_day_no_time() {
    let day = DateOrDateTime::WholeDay(at(2022, 2, 10, 0, 0, 0));
    assert_eq!(
        day.substitute(None, None, None, Some(7), None, None),
        Err(SubstitutionError::ConstructingDateTimeBySubstitutingWholeDay)
    );
    assert_eq!(
        day.substitute(None, None, None, None, None, Some(0)),
        Err(SubstitutionError::ConstructingDateTimeBySubstitutingWholeDay)
    );
}

#[test]
fn substitute_time_with_keeps_the_date() {
    let day = DateOrDateTime::WholeDay(at(2022, 2, 10, 0, 0, 0));
    let other = DateOrDateTime::DateTime(at(2030, 7, 1, 15, 40, 5));
    assert_eq!(
        day.substitute_time_with(other),
        DateOrDateTime::DateTime(at(2022, 2, 10, 15, 40, 5))
    );
    let instant = DateOrDateTime::DateTime(at(2022, 2, 10, 8, 0, 0));
    assert_eq!(
        instant.substitute_time_with(other),
        DateOrDateTime::DateTime(at(2022, 2, 10, 15, 40, 5))
    );
    assert_eq!(instant.substitute_time_with(day), instant);
}

#[test]
fn inc_month_keeps_the_day_and_skips_short_months() {
    let end_of_january = DateOrDateTime::DateTime(at(2022, 1, 31, 9, 0, 0));
    assert_eq!(
        end_of_january.inc_month(1),
        DateOrDateTime::DateTime(at(2022, 3, 31, 9, 0, 0))
    );
    let november = DateOrDateTime::WholeDay(at(2022, 11, 5, 0, 0, 0));
    assert_eq!(
        november.inc_month(1),
        DateOrDateTime::WholeDay(at(2022, 12, 5, 0, 0, 0))
    );
    assert_eq!(
        november.inc_month(2),
        DateOrDateTime::WholeDay(at(2023, 1, 5, 0, 0, 0))
    );
    let december = DateOrDateTime::WholeDay(at(2022, 12, 5, 0, 0, 0));
    assert_eq!(december.inc_month(0), december);
    assert_eq!(
        DateOrDateTime::WholeDay(at(2023, 1, 29, 0, 0, 0)).inc_month(1),
        DateOrDateTime::WholeDay(at(2023, 3, 29, 0, 0, 0))
    );
    assert_eq!(
        DateOrDateTime::WholeDay(at(2024, 1, 29, 0, 0, 0)).inc_month(1),
        DateOrDateTime::WholeDay(at(2024, 2, 29, 0, 0, 0))
    );
}

#[test]
fn twelve_months_are_one_year() {
    for (year, month, day) in [(2022, 2, 5), (2023, 12, 28), (2024, 2, 28), (1999, 1, 1)] {
        let m = DateOrDateTime::DateTime(at(year, month, day, 6, 7, 8));
        assert_eq!(m.inc_month(12), m.inc_year(1));
        assert_eq!(m.inc_year(1), DateOrDateTime::DateTime(at(year + 1, month, day, 6, 7, 8)));
    }
}

#[test]
fn inc_year_moves_29_february_to_1_march() {
    let leap_day = DateOrDateTime::DateTime(at(2024, 2, 29, 12, 0, 0));
    assert_eq!(
        leap_day.inc_year(1),
        DateOrDateTime::DateTime(at(2025, 3, 1, 12, 0, 0))
    );
    assert_eq!(
        leap_day.inc_year(4),
        DateOrDateTime::DateTime(at(2028, 2, 29, 12, 0, 0))
    );
    assert_eq!(
        DateOrDateTime::WholeDay(at(2024, 2, 29, 0, 0, 0)).inc_year(1),
        DateOrDateTime::WholeDay(at(2025, 3, 1, 0, 0, 0))
    );
}

#[test]
fn order_takes_a_whole_day_at_midnight() {
    let day = DateOrDateTime::WholeDay(at(2022, 2, 10, 23, 0, 0));
    let morning = DateOrDateTime::DateTime(at(2022, 2, 10, 0, 0, 1));
    let midnight = DateOrDateTime::DateTime(at(2022, 2, 10, 0, 0, 0));
    assert!(day.before(&morning));
    assert!(morning.after(&day));
    assert!(!day.before(&midnight));
    assert!(!day.after(&midnight));
    assert!(DateOrDateTime::DateTime(at(2021, 12, 31, 23, 59, 59)).before(&day));
}

#[test]
fn seconds_are_added_and_taken_away() {
    let instant = DateOrDateTime::DateTime(at(2022, 12, 31, 23, 59, 30));
    assert_eq!(
        instant.plus_seconds(45),
        Some(DateOrDateTime::DateTime(at(2023, 1, 1, 0, 0, 15)))
    );
    assert_eq!(
        instant.minus_seconds(86400 * 365),
        Some(DateOrDateTime::DateTime(at(2021, 12, 31, 23, 59, 30)))
    );
    assert_eq!(
        instant.succ_day(),
        Some(DateOrDateTime::DateTime(at(2023, 1, 1, 23, 59, 30)))
    );
    let day = DateOrDateTime::WholeDay(at(2024, 2, 28, 0, 0, 0));
    assert_eq!(
        day.succ_day(),
        Some(DateOrDateTime::WholeDay(at(2024, 2, 29, 0, 0, 0)))
    );
    assert_eq!(instant.plus_seconds(0), Some(instant));
}

#[test]
fn seconds_since_counts_from_midnight_for_a_whole_day() {
    let day = DateOrDateTime::WholeDay(at(2022, 2, 10, 17, 0, 0));
    let instant = DateOrDateTime::DateTime(at(2022, 2, 11, 1, 0, 0));
    assert_eq!(instant.seconds_since(day), 25 * 3600);
    assert_eq!(day.seconds_since(instant), -25 * 3600);
    assert_eq!(day.seconds_since(day), 0);
}

#[test]
fn the_ends_of_the_calendar() {
    let last = DateOrDateTime::DateTime(at(MAX_YEAR, 12, 31, 23, 59, 59));
    assert_eq!(last.plus_seconds(1), None);
    assert_eq!(last.succ_day(), None);
    assert_eq!(last.next_weekdays(&[Weekday::Mon, Weekday::Tue]), None);
    assert_eq!(
        utc(DateTime::<Utc>::MAX_UTC),
        at(MAX_YEAR, 12, 31, 23, 59, 59)
    );
    assert_eq!(utc(DateTime::<Utc>::MIN_UTC), at(MIN_YEAR, 1, 1, 0, 0, 0));
    let first = DateOrDateTime::DateTime(at(MIN_YEAR, 1, 1, 0, 0, 0));
    assert_eq!(first.minus_seconds(1), None);
    assert_eq!(
        first.plus_seconds(i64::MAX),
        None
    );
    assert!(last.seconds_since(first) > 0);
    assert_eq!(
        first.plus_seconds(last.seconds_since(first)),
        Some(last)
    );
}

#[test]
fn equals_date_compares_what_is_carried() {
    let day = DateOrDateTime::WholeDay(at(2022, 2, 10, 0, 0, 0));
    assert!(day.equals_date(at(2022, 2, 10, 0, 0, 0)));
    assert!(!day.equals_date(at(2022, 2, 10, 0, 0, 1)));
    assert!(day.equals_date_time(at(2022, 2, 10, 0, 0, 0)));
    assert_eq!(day.date(), at(2022, 2, 10, 0, 0, 0));
    assert_eq!(day.as_datetime(), at(2022, 2, 10, 0, 0, 0));
}

#[test]
fn moments_compare_by_their_instants() {
    let day = DateOrDateTime::WholeDay(at(2022, 2, 10, 23, 0, 0));
    let morning = DateOrDateTime::DateTime(at(2022, 2, 10, 0, 0, 1));
    let midnight = DateOrDateTime::DateTime(at(2022, 2, 10, 0, 0, 0));
    assert!(day < morning);
    assert!(morning > day);
    assert!(day <= midnight && day >= midnight);
    assert_eq!(
        day.partial_cmp(&midnight),
        Some(std::cmp::Ordering::Equal)
    );
    assert_eq!(
        morning.partial_cmp(&midnight),
        Some(std::cmp::Ordering::Greater)
    );
    assert!(DateOrDateTime::WholeDay(at(-1, 12, 31, 0, 0, 0)) < DateOrDateTime::WholeDay(at(0, 1, 1, 0, 0, 0)));
}

#[test]
fn validity_is_that_of_the_calendar() {
    assert_eq!(
        UtcDateTime::from_fields(2024, 2, 29, 23, 59, 59),
        Some(at(2024, 2, 29, 23, 59, 59))
    );
    assert_eq!(UtcDateTime::from_fields(2023, 2, 29, 0, 0, 0), None);
    assert_eq!(UtcDateTime::from_fields(1900, 2, 29, 0, 0, 0), None);
    assert!(UtcDateTime::from_fields(2000, 2, 29, 0, 0, 0).is_some());
    assert_eq!(UtcDateTime::from_fields(2023, 4, 31, 0, 0, 0), None);
    assert_eq!(UtcDateTime::from_fields(2023, 13, 1, 0, 0, 0), None);
    assert_eq!(UtcDateTime::from_fields(2023, 0, 1, 0, 0, 0), None);
    assert_eq!(UtcDateTime::from_fields(2023, 1, 0, 0, 0, 0), None);
    assert_eq!(UtcDateTime::from_fields(2023, 1, 1, 24, 0, 0), None);
    assert_eq!(UtcDateTime::from_fields(2023, 1, 1, 0, 60, 0), None);
    assert_eq!(UtcDateTime::from_fields(2023, 1, 1, 0, 0, 60), None);
    assert_eq!(UtcDateTime::from_fields(MAX_YEAR + 1, 1, 1, 0, 0, 0), None);
    assert_eq!(UtcDateTime::from_fields(MIN_YEAR - 1, 12, 31, 0, 0, 0), None);
    assert!(UtcDateTime::from_fields(MIN_YEAR, 1, 1, 0, 0, 0).is_some());
    for month in 1..=12 {
        let days = [31, 28, 31, 30, 31, 30, 31, 31, 30, 31, 30, 31][month as usize - 1];
        assert!(at(2023, month, days, 0, 0, 0).check_valid());
        assert!(!at(2023, month, days + 1, 0, 0, 0).check_valid());
    }
    assert!(DateOrDateTime::WholeDay(at(2022, 2, 10, 10, 30, 59)).check_valid());
    assert!(!DateOrDateTime::DateTime(at(2022, 2, 30, 10, 30, 59)).check_valid());
    assert_eq!(at(2022, 2, 10, 10, 30, 59).at_midnight(), at(2022, 2, 10, 0, 0, 0));
}

#[test]
fn weekdays_follow_the_days() {
    // 1 January 1970 was a Thursday, 29 February 2024 too
    assert_eq!(weekday_of(&at(1970, 1, 1, 0, 0, 0)), Weekday::Thu);
    assert_eq!(weekday_of(&at(2024, 2, 29, 23, 59, 59)), Weekday::Thu);
    assert_eq!(weekday_of(&at(2022, 2, 7, 0, 0, 0)), Weekday::Mon);
    assert_eq!(weekday_of(&at(2022, 2, 13, 12, 0, 0)), Weekday::Sun);
    for start in [
        at(2022, 2, 5, 7, 8, 9),
        at(1969, 12, 31, 23, 59, 59),
        at(-1, 3, 1, 0, 0, 0),
        at(2000, 2, 29, 0, 0, 0),
    ] {
        let first = weekday_of(&start).num_days_from_monday() as i64;
        let moment = DateOrDateTime::DateTime(start);
        for days in -400..400i64 {
            let moved = moment.plus_seconds(days * 86400).unwrap();
            assert_eq!(
                weekday_of(&moved.date()).num_days_from_monday() as i64,
                (first + days).rem_euclid(7)
            );
            assert_eq!(moved.hour(), start.hour);
            assert_eq!(moved.before(&moment), days < 0);
            assert_eq!(moved.after(&moment), days > 0);
            assert_eq!(moved.seconds_since(moment), days * 86400);
            assert_eq!(moment.seconds_since(moved), -days * 86400);
        }
    }
}

#[test]
fn the_order_of_time_is_the_order_of_the_fields() {
    let mut earlier = DateOrDateTime::DateTime(at(1999, 12, 30, 23, 59, 0));
    for step in [1i64, 59, 60, 3599, 86399, 86400, 86401, 31 * 86400, 366 * 86400] {
        let later = earlier.plus_seconds(step).unwrap();
        assert!(earlier.before(&later) && later.after(&earlier) && earlier < later);
        assert_eq!(later.seconds_since(earlier), step);
        assert_eq!(later.minus_seconds(step), Some(earlier));
        earlier = later;
    }
}
