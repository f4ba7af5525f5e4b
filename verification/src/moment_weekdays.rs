use vstd::prelude::*;

use crate::by_day::{ByDay, ByDayView, Delta};
use crate::date_or_date_time::DateOrDateTime;
use crate::utc_date_time::{
    days_in_month, utc_from_fields, utc_weekday, utc_weekday_number, valid_date, UtcDateTime,
};
use crate::weekday::{lemma_weekday_number_round_trip, Weekday};

verus! {

/// The weekday of a date.
pub open spec fn weekday_at(year: int, month: int, day: int) -> Weekday {
    Weekday::from_number(utc_weekday_number(year, month, day))
}

/// The day of the month on which `weekday` falls for the `remaining`-th time, counting the
/// days of the month upwards from `day`.
pub open spec fn nth_weekday_from(
    year: int,
    month: int,
    weekday: Weekday,
    day: int,
    remaining: int,
) -> Option<int>
    decreases 32 - day,
{
    if day < 1 || day > days_in_month(year, month) || remaining < 1 {
        None
    } else if weekday_at(year, month, day) == weekday {
        if remaining == 1 {
            Some(day)
        } else {
            nth_weekday_from(year, month, weekday, day + 1, remaining - 1)
        }
    } else {
        nth_weekday_from(year, month, weekday, day + 1, remaining)
    }
}

/// The day of the month on which `weekday` falls for the `remaining`-th time, counting the
/// days of the month downwards from `day`. Days past the month's end are passed over.
pub open spec fn nth_weekday_back_from(
    year: int,
    month: int,
    weekday: Weekday,
    day: int,
    remaining: int,
) -> Option<int>
    decreases day,
{
    if day < 1 || remaining < 1 {
        None
    } else if day > days_in_month(year, month) {
        nth_weekday_back_from(year, month, weekday, day - 1, remaining)
    } else if weekday_at(year, month, day) == weekday {
        if remaining == 1 {
            Some(day)
        } else {
            nth_weekday_back_from(year, month, weekday, day - 1, remaining - 1)
        }
    } else {
        nth_weekday_back_from(year, month, weekday, day - 1, remaining)
    }
}

/// The day of the month that a counted weekday picks: the `delta`-th such weekday from the
/// month's start, or for a negative `delta` from its end. `None` where the month has fewer
/// of them, and for a `delta` of 0.
pub open spec fn counted_weekday_day(year: int, month: int, delta: Delta) -> Option<int> {
    if delta.delta > 0 {
        nth_weekday_from(year, month, delta.weekday, 1, delta.delta as int)
    } else {
        nth_weekday_back_from(year, month, delta.weekday, 31, -delta.delta)
    }
}

/// How many of the days `from` to `to` of a month fall on `weekday`.
pub open spec fn weekday_count(year: int, month: int, weekday: Weekday, from: int, to: int) -> int
    decreases to - from + 1,
{
    if from > to {
        0
    } else {
        weekday_count(year, month, weekday, from, to - 1) + if weekday_at(year, month, to)
            == weekday {
            1int
        } else {
            0int
        }
    }
}

/// Counting from `from` to `to` is counting `from` and then the rest.
pub proof fn lemma_weekday_count_from(year: int, month: int, weekday: Weekday, from: int, to: int)
    requires
        from <= to,
    ensures
        weekday_count(year, month, weekday, from, to) == weekday_count(
            year,
            month,
            weekday,
            from + 1,
            to,
        ) + if weekday_at(year, month, from) == weekday {
            1int
        } else {
            0int
        },
    decreases to - from + 1,
{
    if from < to {
        lemma_weekday_count_from(year, month, weekday, from, to - 1);
        assert(weekday_count(year, month, weekday, from + 1, to) == weekday_count(
            year,
            month,
            weekday,
            from + 1,
            to - 1,
        ) + if weekday_at(year, month, to) == weekday {
            1int
        } else {
            0int
        });
    } else {
        assert(weekday_count(year, month, weekday, from, to - 1) == 0);
        assert(weekday_count(year, month, weekday, from + 1, to) == 0);
    }
}

/// The day found by counting upwards is the one on the weekday that has `remaining` days
/// on that weekday from `day` up to itself; none is found exactly where the month has fewer
/// such days from `day` on.
pub proof fn lemma_nth_weekday_from_counts(
    year: int,
    month: int,
    weekday: Weekday,
    day: int,
    remaining: int,
)
    requires
        1 <= day,
        1 <= remaining,
    ensures
        match nth_weekday_from(year, month, weekday, day, remaining) {
            Some(found) => day <= found <= days_in_month(year, month) && weekday_at(
                year,
                month,
                found,
            ) == weekday && weekday_count(year, month, weekday, day, found) == remaining,
            None => weekday_count(year, month, weekday, day, days_in_month(year, month))
                < remaining,
        },
    decreases 32 - day,
{
    let last = days_in_month(year, month);
    if day <= last {
        let rest = if weekday_at(year, month, day) == weekday {
            remaining - 1
        } else {
            remaining
        };
        if rest >= 1 {
            lemma_nth_weekday_from_counts(year, month, weekday, day + 1, rest);
            match nth_weekday_from(year, month, weekday, day + 1, rest) {
                Some(found) => {
                    lemma_weekday_count_from(year, month, weekday, day, found);
                },
                None => {
                    lemma_weekday_count_from(year, month, weekday, day, last);
                },
            }
        } else {
            assert(weekday_count(year, month, weekday, day, day - 1) == 0);
        }
    }
}

/// The day found by counting downwards is the one on the weekday that has `remaining` days
/// on that weekday from itself up to `day`; none is found exactly where the month has fewer
/// such days up to `day`.
pub proof fn lemma_nth_weekday_back_from_counts(
    year: int,
    month: int,
    weekday: Weekday,
    day: int,
    remaining: int,
)
    requires
        day <= 31,
        1 <= remaining,
    ensures
        match nth_weekday_back_from(year, month, weekday, day, remaining) {
            Some(found) => 1 <= found <= day && found <= days_in_month(year, month)
                && weekday_at(year, month, found) == weekday && weekday_count(
                year,
                month,
                weekday,
                found,
                if day <= days_in_month(year, month) {
                    day
                } else {
                    days_in_month(year, month)
                },
            ) == remaining,
            None => weekday_count(
                year,
                month,
                weekday,
                1,
                if day <= days_in_month(year, month) {
                    day
                } else {
                    days_in_month(year, month)
                },
            ) < remaining,
        },
    decreases day,
{
    let last = days_in_month(year, month);
    if day >= 1 {
        if day > last {
            lemma_nth_weekday_back_from_counts(year, month, weekday, day - 1, remaining);
        } else {
            let rest = if weekday_at(year, month, day) == weekday {
                remaining - 1
            } else {
                remaining
            };
            if rest >= 1 {
                lemma_nth_weekday_back_from_counts(year, month, weekday, day - 1, rest);
            } else {
                assert(weekday_count(year, month, weekday, day, day - 1) == 0);
            }
        }
    }
}

/// What a counted weekday picks, said by counting: for a positive count `n` the day on the
/// weekday up to which the month has `n` days on that weekday, for a negative count `-n`
/// the day on the weekday from which on it has `n`; and nothing exactly where the month has
/// fewer than `n`, or the count is 0.
pub proof fn lemma_counted_weekday_day(year: int, month: int, delta: Delta)
    ensures
        match counted_weekday_day(year, month, delta) {
            Some(day) => {
                &&& 1 <= day <= days_in_month(year, month)
                &&& weekday_at(year, month, day) == delta.weekday
                &&& delta.delta > 0 ==> weekday_count(year, month, delta.weekday, 1, day)
                    == delta.delta
                &&& delta.delta < 0 ==> weekday_count(
                    year,
                    month,
                    delta.weekday,
                    day,
                    days_in_month(year, month),
                ) == -delta.delta
                &&& delta.delta != 0
            },
            None => {
                &&& delta.delta > 0 ==> weekday_count(
                    year,
                    month,
                    delta.weekday,
                    1,
                    days_in_month(year, month),
                ) < delta.delta
                &&& delta.delta < 0 ==> weekday_count(
                    year,
                    month,
                    delta.weekday,
                    1,
                    days_in_month(year, month),
                ) < -delta.delta
            },
        },
{
    if delta.delta > 0 {
        lemma_nth_weekday_from_counts(year, month, delta.weekday, 1, delta.delta as int);
    } else if delta.delta < 0 {
        lemma_nth_weekday_back_from_counts(year, month, delta.weekday, 31, -delta.delta);
    }
}

/// Whether a weekday is one of a list.
pub fn has_weekday(weekdays: &[Weekday], weekday: Weekday) -> (r: bool)
    ensures
        r == weekdays@.contains(weekday),
{
    let mut i: usize = 0;
    while i < weekdays.len()
        invariant
            i <= weekdays@.len(),
            forall|k: int| 0 <= k < i ==> weekdays@[k] != weekday,
        decreases weekdays@.len() - i,
    {
        if weekdays[i] == weekday {
            return true;
        }
        i += 1;
    }
    false
}

/// The weekday of a valid date.
pub fn weekday_of(t: &UtcDateTime) -> (r: Weekday)
    requires
        t.is_valid(),
    ensures
        r == t.weekday(),
        r.number() == utc_weekday_number(t.year as int, t.month as int, t.day as int),
{
    utc_weekday(t.year, t.month, t.day)
}

impl DateOrDateTime {
    /// The first of the days `days`, `days + 1`, ... up to 7 days after `self` that falls on
    /// one of the weekdays; `None` where there is none or a day before it cannot be reached.
    pub open spec fn next_weekdays_from(self, weekdays: Seq<Weekday>, days: int) -> Option<
        DateOrDateTime,
    >
        decreases 8 - days,
    {
        if days < 1 || days > 7 {
            None
        } else {
            match self.shifted(days * 86400) {
                None => None,
                Some(m) => if weekdays.contains(m.payload().weekday()) {
                    Some(m)
                } else {
                    self.next_weekdays_from(weekdays, days + 1)
                },
            }
        }
    }

    /// The earliest moment, a whole number of days and at least one day after `self`, that
    /// falls on one of the weekdays.
    pub open spec fn next_weekdays_spec(self, weekdays: Seq<Weekday>) -> Option<DateOrDateTime> {
        self.next_weekdays_from(weekdays, 1)
    }

    /// Steps on day by day, by one day at least, to the first day that falls on one of the
    /// weekdays.
    ///
    /// There is such a day within a week unless the list is empty: `None` is returned for an
    /// empty list, and where a day on the way lies past the last year that a date can have.
    pub fn next_weekdays(self, weekdays: &[Weekday]) -> (r: Option<Self>)
        requires
            self.is_valid(),
        ensures
            r == self.next_weekdays_spec(weekdays@),
            r matches Some(m) ==> m.is_valid() && self.payload().ordinal() < m.payload().ordinal()
                && weekdays@.contains(m.payload().weekday()),
            r is None ==> weekdays@.len() == 0 || exists|k: int|
                1 <= k <= 7 && (#[trigger] self.shifted(k * 86400)) is None,
    {
        let mut days: i64 = 1;
        let ghost start = utc_weekday_number(
            self.payload().year as int,
            self.payload().month as int,
            self.payload().day as int,
        );
        while days <= 7
            invariant
                self.is_valid(),
                1 <= days <= 8,
                start == utc_weekday_number(
                    self.payload().year as int,
                    self.payload().month as int,
                    self.payload().day as int,
                ),
                self.next_weekdays_spec(weekdays@) == self.next_weekdays_from(weekdays@, days as int),
                forall|k: int|
                    1 <= k < days ==> !weekdays@.contains(
                        #[trigger] Weekday::from_number(start + k),
                    ),
                forall|k: int| 1 <= k < days ==> (#[trigger] self.shifted(k * 86400)) is Some,
            decreases 8 - days,
        {
            let seconds: i64 = days * 86400;
            assert(seconds % 86400 == 0 && seconds / 86400 == days) by (nonlinear_arith)
                requires
                    seconds == days * 86400,
            ;
            match self.plus_seconds(seconds) {
                None => {
                    return None;
                },
                Some(m) => {
                    let weekday = weekday_of(&m.date());
                    proof {
                        lemma_weekday_number_round_trip(weekday);
                        assert(weekday.number() == (start + days) % 7);
                        assert(((start + days) % 7) % 7 == (start + days) % 7);
                        assert(weekday == Weekday::from_number(start + days));
                    }
                    if has_weekday(weekdays, weekday) {
                        return Some(m);
                    }
                },
            }
            days += 1;
        }
        proof {
            if weekdays@.len() > 0 {
                let wanted = weekdays@[0];
                let k = (wanted.number() - start) % 7;
                let k = if k == 0 {
                    7
                } else {
                    k
                };
                assert(Weekday::from_number(start + k) == wanted);
                assert(weekdays@.contains(wanted));
            }
        }
        None
    }

    /// Steps on day by day, by one day at least, to the first day that falls on `weekday`.
    pub fn next_weekday(self, weekday: Weekday) -> (r: Option<Self>)
        requires
            self.is_valid(),
        ensures
            r == self.next_weekdays_spec(seq![weekday]),
            r matches Some(m) ==> m.is_valid() && self.payload().ordinal() < m.payload().ordinal()
                && m.payload().weekday() == weekday,
    {
        let one = [weekday];
        assert(one@ =~= seq![weekday]);
        let r = self.next_weekdays(one.as_slice());
        assert(forall|w: Weekday| seq![weekday].contains(w) ==> w == weekday);
        r
    }

    /// The day that a counted weekday picks in the month of `self`, at the time of day of
    /// `self`.
    pub open spec fn move_by_delta_spec(self, delta: Delta) -> Option<DateOrDateTime> {
        let p = self.payload();
        match counted_weekday_day(p.year as int, p.month as int, delta) {
            Some(day) => Some(self.on_date(p.year as int, p.month as int, day)),
            None => None,
        }
    }

    /// Finds a counted weekday in the month of `self`: the first Sunday, the last Friday.
    ///
    /// The days of the month are gone through from its first day on for a positive count,
    /// from its last day back for a negative one. `None` where the month has not that many
    /// of the weekday, and for a count of 0.
    pub fn move_by_delta(self, delta: &Delta) -> (r: Option<DateOrDateTime>)
        requires
            self.is_valid(),
        ensures
            r == self.move_by_delta_spec(*delta),
            r matches Some(m) ==> m.is_valid() && m.payload().year == self.payload().year
                && m.payload().month == self.payload().month && m.payload().weekday()
                == delta.weekday,
    {
        let year = self.year();
        let month = self.month();
        let forward = delta.delta > 0;
        let mut remaining: i64 = if forward {
            delta.delta as i64
        } else {
            -(delta.delta as i64)
        };
        let mut day: u32 = if forward {
            1
        } else {
            31
        };
        let mut found: Option<u32> = None;
        while found.is_none() && 1 <= day && day <= 31 && remaining >= 1
            invariant
                valid_date(year as int, month as int, 1),
                0 <= day <= 32,
                !forward ==> day <= 31,
                forward == (delta.delta > 0),
                found is None ==> counted_weekday_day(year as int, month as int, *delta) == (
                if forward {
                    nth_weekday_from(year as int, month as int, delta.weekday, day as int, remaining as int)
                } else {
                    nth_weekday_back_from(
                        year as int,
                        month as int,
                        delta.weekday,
                        day as int,
                        remaining as int,
                    )
                }),
                found matches Some(d) ==> counted_weekday_day(year as int, month as int, *delta)
                    == Some(d as int) && valid_date(year as int, month as int, d as int)
                    && weekday_at(year as int, month as int, d as int) == delta.weekday,
            decreases
                    (if found is None {
                        1int
                    } else {
                        0int
                    }),
                    (if forward {
                        32 - day
                    } else {
                        day as int
                    }),
        {
            match utc_from_fields(year, month, day, 0, 0, 0) {
                None => {
                    if forward {
                        day = 32;
                    } else {
                        day -= 1;
                    }
                },
                Some(t) => {
                    if weekday_of(&t) == delta.weekday {
                        if remaining == 1 {
                            found = Some(day);
                        } else {
                            remaining -= 1;
                            if forward {
                                day += 1;
                            } else {
                                day -= 1;
                            }
                        }
                    } else {
                        if forward {
                            day += 1;
                        } else {
                            day -= 1;
                        }
                    }
                },
            }
        }
        match found {
            None => None,
            Some(d) => {
                let moved = match self {
                    DateOrDateTime::WholeDay(_) => {
                        DateOrDateTime::WholeDay(utc_from_fields(year, month, d, 0, 0, 0).unwrap())
                    },
                    DateOrDateTime::DateTime(dt) => {
                        DateOrDateTime::DateTime(
                            utc_from_fields(year, month, d, dt.hour, dt.minute, dt.second).unwrap(),
                        )
                    },
                };
                Some(moved)
            },
        }
    }

    pub open spec fn next_by_day_spec(self, by_day: ByDayView) -> Option<DateOrDateTime> {
        match by_day {
            ByDayView::Delta(delta) => self.move_by_delta_spec(delta),
            ByDayView::Simple(weekdays) => self.next_weekdays_spec(weekdays),
        }
    }

    /// Applies a weekday selector: a counted weekday is found in the month of `self`, a list
    /// of weekdays gives the next day that falls on one of them.
    pub fn next_by_day(self, by_day: &ByDay) -> (r: Option<Self>)
        requires
            self.is_valid(),
        ensures
            r == self.next_by_day_spec(by_day@),
            r matches Some(m) ==> m.is_valid(),
    {
        match by_day {
            ByDay::Delta(delta) => self.move_by_delta(delta),
            ByDay::Simple(weekdays) => self.next_weekdays(weekdays.as_slice()),
        }
    }
}

} // verus!
