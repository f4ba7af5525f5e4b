use vstd::prelude::*;

use crate::date_or_date_time::{month_after, time_position, DateOrDateTime};
use crate::rrule::{Options, RRule, RRuleView};
use crate::utc_date_time::{utc_seconds_between, MAX_YEAR, MIN_YEAR};
use crate::vevent::{OccurrenceError, VEvent};

verus! {

/// What a step of a rule finds.
#[derive(Debug, Clone, Copy, PartialEq, Eq, Structural)]
pub enum Step {
    /// The moment that the step leads to.
    Moved(DateOrDateTime),
    /// There is no further moment.
    End,
    /// The rule's step is not defined.
    Unsupported,
}

/// The largest place in the order of time that a valid date and time has.
pub open spec fn max_ordinal() -> int {
    ((MAX_YEAR * 12 + 11) * 31 + 30) * 86400 + 86399
}

/// A step leads forward, to a valid moment that stands later than the one it started from;
/// where a rule leads nowhere, or not forward, there is no further moment.
pub open spec fn forward(last: DateOrDateTime, candidate: Option<DateOrDateTime>) -> Step {
    match candidate {
        Some(m) => if m.is_valid() && last.payload().ordinal() < m.payload().ordinal() {
            Step::Moved(m)
        } else {
            Step::End
        },
        None => Step::End,
    }
}

/// One step of a rule from the moment `last`.
///
/// A yearly rule moves one year ahead and a monthly rule by day of the month one month
/// ahead, each within the years that a date can have. A monthly rule by weekday goes to the
/// first day of the next month and applies its selector there. A weekly rule moves seven
/// days ahead, a weekly rule by weekday to the next day on one of the selector's weekdays,
/// a daily rule one day ahead. The step of a yearly rule by month and weekday is not defined.
pub open spec fn single_step(rule: RRuleView, last: DateOrDateTime) -> Step {
    let p = last.payload();
    match rule {
        RRuleView::Yearly { .. } | RRuleView::YearlyByMonthByMonthDay { .. } => if p.year + 1
            <= MAX_YEAR {
            forward(last, Some(last.inc_year_spec(1)))
        } else {
            Step::End
        },
        RRuleView::YearlyByMonthByDay { .. } => Step::Unsupported,
        RRuleView::MonthlyByMonthDay { .. } => if month_after(p.year as int, p.month as int).0
            <= MAX_YEAR {
            forward(last, Some(last.inc_month_spec(1)))
        } else {
            Step::End
        },
        RRuleView::MonthlyByDay { day, .. } => {
            let next = month_after(p.year as int, p.month as int);
            if next.0 <= MAX_YEAR {
                forward(last, last.on_date(next.0, next.1, 1).next_by_day_spec(day))
            } else {
                Step::End
            }
        },
        RRuleView::Weekly { .. } => forward(last, last.shifted(604800)),
        RRuleView::WeeklyByDay { day, .. } => forward(
            last,
            last.next_weekdays_spec(day.weekdays()),
        ),
        RRuleView::Daily { .. } => forward(last, last.shifted(86400)),
    }
}

/// `steps` steps of a rule in a row. A step that leads past the moment until which the rule
/// runs ends the row there: the remaining steps are not made.
pub open spec fn advance(rule: RRuleView, last: DateOrDateTime, steps: int) -> Step
    decreases steps,
{
    if steps <= 0 {
        Step::Moved(last)
    } else {
        match single_step(rule, last) {
            Step::Moved(m) => if rule.common_options().is_expired(m) {
                Step::End
            } else {
                advance(rule, m, steps - 1)
            },
            other => other,
        }
    }
}

/// A row of one step or more arrives at a valid moment that stands later than its start.
pub proof fn lemma_advance_moves_forward(rule: RRuleView, last: DateOrDateTime, steps: int)
    requires
        steps >= 1,
    ensures
        advance(rule, last, steps) matches Step::Moved(m) ==> m.is_valid()
            && last.payload().ordinal() < m.payload().ordinal()
            && !rule.common_options().is_expired(m),
    decreases steps,
{
    if let Step::Moved(m) = single_step(rule, last) {
        if !rule.common_options().is_expired(m) && steps > 1 {
            lemma_advance_moves_forward(rule, m, steps - 1);
        }
    }
}

/// The next moment of the rule, after `last`, whose day the event does not leave out: the
/// rule is advanced by its interval, and again from there for as long as it arrives on a day
/// that is left out.
pub open spec fn next_accepted(event: &VEvent, rule: RRuleView, last: DateOrDateTime) -> Step
    decreases max_ordinal() - last.payload().ordinal(),
    when rule.is_valid()
{
    match advance(rule, last, rule.common_options().steps()) {
        Step::Moved(m) => if event.excludes(m) {
            proof {
                lemma_advance_moves_forward(rule, last, rule.common_options().steps());
            }
            next_accepted(event, rule, m)
        } else {
            Step::Moved(m)
        },
        other => other,
    }
}

/// The moment that is accepted is a valid one whose day the event does not leave out.
pub proof fn lemma_next_accepted_is_not_excluded(
    event: &VEvent,
    rule: RRuleView,
    last: DateOrDateTime,
)
    requires
        rule.is_valid(),
    ensures
        next_accepted(event, rule, last) matches Step::Moved(m) ==> m.is_valid()
            && !event.excludes(m) && last.payload().ordinal() < m.payload().ordinal()
            && !rule.common_options().is_expired(m),
    decreases max_ordinal() - last.payload().ordinal(),
{
    lemma_advance_moves_forward(rule, last, rule.common_options().steps());
    if let Step::Moved(m) = advance(rule, last, rule.common_options().steps()) {
        if event.excludes(m) {
            lemma_next_accepted_is_not_excluded(event, rule, m);
        }
    }
}

/// A step that leads forward, computed.
pub fn step_forward(last: DateOrDateTime, candidate: Option<DateOrDateTime>) -> (r: Step)
    requires
        candidate matches Some(m) ==> m.is_valid(),
    ensures
        r == forward(last, candidate),
{
    match candidate {
        Some(m) => if time_position(&last.date()) < time_position(&m.date()) {
            Step::Moved(m)
        } else {
            Step::End
        },
        None => Step::End,
    }
}

/// Makes one step of a rule from the moment `last`.
pub fn step_by_rule(rule: &RRule, last: DateOrDateTime) -> (r: Step)
    requires
        last.is_valid(),
    ensures
        r == single_step(rule@, last),
        r matches Step::Moved(m) ==> m.is_valid() && last.payload().ordinal()
            < m.payload().ordinal(),
{
    match rule {
        RRule::Yearly(_) => {
            if last.year() < MAX_YEAR {
                step_forward(last, Some(last.inc_year(1)))
            } else {
                Step::End
            }
        },
        RRule::YearlyByMonthByDay(_) => Step::Unsupported,
        RRule::YearlyByMonthByMonthDay(_) => {
            if last.year() < MAX_YEAR {
                step_forward(last, Some(last.inc_year(1)))
            } else {
                Step::End
            }
        },
        RRule::MonthlyByMonthDay(_) => {
            if last.month() < 12 || last.year() < MAX_YEAR {
                step_forward(last, Some(last.inc_month(1)))
            } else {
                Step::End
            }
        },
        RRule::MonthlyByDay(rule) => {
            if last.month() < 12 || last.year() < MAX_YEAR {
                let next_month = match last.substitute(
                    Some(
                        if last.month() == 12 {
                            last.year() + 1
                        } else {
                            last.year()
                        },
                    ),
                    Some(
                        if last.month() == 12 {
                            1
                        } else {
                            last.month() + 1
                        },
                    ),
                    Some(1),
                    None,
                    None,
                    None,
                ) {
                    Ok(next_month) => next_month,
                    Err(_) => {
                        return Step::End;
                    },
                };
                step_forward(last, next_month.next_by_day(&rule.day))
            } else {
                Step::End
            }
        },
        RRule::Weekly(_) => step_forward(last, last.plus_seconds(7 * 86400)),
        RRule::WeeklyByDay(rule) => {
            let candidate = match &rule.day {
                crate::by_day::ByDay::Simple(weekdays) => last.next_weekdays(weekdays.as_slice()),
                crate::by_day::ByDay::Delta(delta) => last.next_weekday(delta.weekday),
            };
            step_forward(last, candidate)
        },
        RRule::Daily(_) => step_forward(last, last.plus_seconds(86400)),
    }
}

/// Makes the steps of a rule's interval in a row.
pub fn advance_by_rule(rule: &RRule, last: DateOrDateTime) -> (r: Step)
    requires
        last.is_valid(),
    ensures
        r == advance(rule@, last, rule@.common_options().steps()),
        r matches Step::Moved(m) ==> m.is_valid(),
{
    let mut iterations: u32 = match rule.common_options().interval {
        Some(interval) => interval,
        None => 1,
    };
    let mut current = last;
    while iterations > 0
        invariant
            current.is_valid(),
            advance(rule@, last, rule@.common_options().steps()) == advance(
                rule@,
                current,
                iterations as int,
            ),
        decreases iterations,
    {
        match step_by_rule(rule, current) {
            Step::Moved(m) => {
                if rule.is_expired(m) {
                    return Step::End;
                }
                current = m;
                iterations -= 1;
            },
            Step::End => {
                return Step::End;
            },
            Step::Unsupported => {
                return Step::Unsupported;
            },
        }
    }
    Step::Moved(current)
}

/// Finds the next moment of the rule whose day the event does not leave out.
pub fn next_accepted_by_rule(event: &VEvent, rule: &RRule, last: DateOrDateTime) -> (r: Step)
    requires
        last.is_valid(),
        rule@.is_valid(),
    ensures
        r == next_accepted(event, rule@, last),
        r matches Step::Moved(m) ==> m.is_valid(),
{
    let mut current = last;
    loop
        invariant
            current.is_valid(),
            rule@.is_valid(),
            next_accepted(event, rule@, last) == next_accepted(event, rule@, current),
        decreases max_ordinal() - current.payload().ordinal(),
    {
        match advance_by_rule(rule, current) {
            Step::Moved(m) => {
                if !event.is_excluded(&m) {
                    return Step::Moved(m);
                }
                proof {
                    lemma_advance_moves_forward(rule@, current, rule@.common_options().steps());
                }
                current = m;
            },
            Step::End => {
                return Step::End;
            },
            Step::Unsupported => {
                return Step::Unsupported;
            },
        }
    }
}

/// The smallest place in the order of time that a valid date and time has.
pub open spec fn min_ordinal() -> int {
    MIN_YEAR * 12 * 31 * 86400
}

/// How far the moment last given out is from the end of time; more than that of any moment
/// where none was given out yet.
pub open spec fn remaining(last: Option<DateOrDateTime>) -> int {
    match last {
        None => max_ordinal() - min_ordinal() + 1,
        Some(last) => max_ordinal() - last.payload().ordinal(),
    }
}

/// The start of the occurrence that comes after `last`, the `count`-th: the event's own
/// start where none was given out yet; else, where the event recurs and has occurrences left,
/// the next moment of its rule whose day is not left out.
pub open spec fn next_start(event: &VEvent, last: Option<DateOrDateTime>, count: u32) -> Step {
    match last {
        None => Step::Moved(event.dt_start),
        Some(last) => match event.rule() {
            None => Step::End,
            Some(rule) => if rule.common_options().is_out_of_count(count) {
                Step::End
            } else {
                next_accepted(event, rule, last)
            },
        },
    }
}

/// The start that comes next is a valid moment, and it stands after the one given out last.
pub proof fn lemma_next_start_moves_forward(
    event: &VEvent,
    last: Option<DateOrDateTime>,
    count: u32,
)
    requires
        event.is_valid(),
    ensures
        next_start(event, last, count) matches Step::Moved(m) ==> m.is_valid() && 0 <= remaining(
            Some(m),
        ) < remaining(last),
        (next_start(event, last, count), last) matches (Step::Moved(m), Some(l))
            ==> l.payload().ordinal() < m.payload().ordinal(),
{
    if let Some(l) = last {
        if let Some(rule) = event.rule() {
            lemma_next_accepted_is_not_excluded(event, rule, l);
        }
    }
}

/// Once as many occurrences were given out as the rule allows, there is no further one.
pub proof fn lemma_out_of_count_ends(event: &VEvent, last: DateOrDateTime, count: u32)
    requires
        event.rule() matches Some(rule) && rule.common_options().is_out_of_count(count),
    ensures
        next_start(event, Some(last), count) == Step::End,
{
}

/// The number of occurrences given out never passes the count that the rule allows; only
/// the event's own start is given out whatever the count.
pub proof fn lemma_count_is_never_passed(
    event: &VEvent,
    last: Option<DateOrDateTime>,
    count: u32,
    limit: u32,
)
    requires
        event.rule() matches Some(rule) && rule.common_options().count == Some(limit),
        last is None ==> count == 0,
        count <= limit || count <= 1,
    ensures
        next_start(event, last, count) is Moved ==> counted(count) <= limit || counted(count)
            <= 1,
{
}

/// No occurrence that the rule arrives at starts on a day that the event leaves out, or
/// after the moment until which the rule runs.
pub proof fn lemma_left_out_days_never_start(event: &VEvent, last: DateOrDateTime, count: u32)
    requires
        event.is_valid(),
    ensures
        next_start(event, Some(last), count) matches Step::Moved(m) ==> !event.excludes(m)
            && event.rule() is Some && !event.rule()->0.common_options().is_expired(m),
{
    if let Some(rule) = event.rule() {
        lemma_next_accepted_is_not_excluded(event, rule, last);
    }
}

/// The occurrence that starts at `start`: it lasts as long as the event itself. `None` where
/// its end lies past the years that a date can have.
pub open spec fn occurrence_at(event: &VEvent, start: DateOrDateTime) -> Option<
    core::ops::Range<DateOrDateTime>,
> {
    match start.shifted(utc_seconds_between(event.dt_end.instant(), event.dt_start.instant())) {
        Some(end) => Some(core::ops::Range { start, end }),
        None => None,
    }
}

/// One more than `count`, as far as the counter goes.
pub open spec fn counted(count: u32) -> u32 {
    if count < u32::MAX {
        (count + 1) as u32
    } else {
        count
    }
}

/// A cursor over the occurrences of an event, from its start on.
///
/// It holds the start of the occurrence that it gave out last and the number of occurrences
/// that it gave out. It never goes back: once a pull finds nothing, every later pull finds
/// nothing.
#[derive(Debug, Clone)]
pub struct VEventIterator<'a> {
    event: &'a VEvent,
    last_occurrence: Option<DateOrDateTime>,
    count: u32,
}

impl<'a> VEventIterator<'a> {
    pub closed spec fn event(&self) -> &'a VEvent {
        self.event
    }

    /// The start of the occurrence given out last.
    pub closed spec fn last(&self) -> Option<DateOrDateTime> {
        self.last_occurrence
    }

    /// The number of occurrences given out.
    pub closed spec fn emitted(&self) -> u32 {
        self.count
    }

    /// The event is a valid one, and so is the start of the occurrence given out last.
    pub open spec fn wf(&self) -> bool {
        &&& self.event().is_valid()
        &&& self.last() matches Some(last) ==> last.is_valid()
    }

    pub fn new(event: &'a VEvent) -> (r: Self)
        ensures
            r.event() == event,
            r.last() is None,
            r.emitted() == 0,
    {
        Self { event, last_occurrence: None, count: 0 }
    }

    /// Gives out the next occurrence.
    ///
    /// The first pull gives the event's own start. Each later one advances the rule from the
    /// start given out last, passes over the days that the event leaves out, which do not
    /// count, and gives the occurrence at the moment it arrives at. `Ok(None)` says that
    /// there is no further occurrence, an error that the rule's step is not defined; both
    /// leave the cursor as it was, so that the next pull says the same.
    pub fn next(&mut self) -> (r: Result<
        Option<core::ops::Range<DateOrDateTime>>,
        OccurrenceError,
    >)
        requires
            old(self).wf(),
        ensures
            final(self).wf(),
            final(self).event() == old(self).event(),
            match next_start(old(self).event(), old(self).last(), old(self).emitted()) {
                Step::Moved(start) => match occurrence_at(old(self).event(), start) {
                    Some(occurrence) => {
                        &&& r == Ok::<Option<core::ops::Range<DateOrDateTime>>, OccurrenceError>(
                            Some(occurrence),
                        )
                        &&& final(self).last() == Some(start)
                        &&& final(self).emitted() == counted(old(self).emitted())
                        &&& remaining(final(self).last()) < remaining(old(self).last())
                    },
                    None => r == Ok::<Option<core::ops::Range<DateOrDateTime>>, OccurrenceError>(
                        None,
                    ) && *final(self) == *old(self),
                },
                Step::End => r == Ok::<Option<core::ops::Range<DateOrDateTime>>, OccurrenceError>(
                    None,
                ) && *final(self) == *old(self),
                Step::Unsupported => r == Err::<
                    Option<core::ops::Range<DateOrDateTime>>,
                    OccurrenceError,
                >(OccurrenceError::Unsupported) && *final(self) == *old(self),
            },
            old(self).last() is None && old(self).event().dt_start.payload() == old(
                self,
            ).event().dt_start.instant() ==> r == Ok::<
                Option<core::ops::Range<DateOrDateTime>>,
                OccurrenceError,
            >(
                Some(
                    core::ops::Range {
                        start: old(self).event().dt_start,
                        end: old(self).event().dt_start.carrying(
                            old(self).event().dt_end.instant(),
                        ),
                    },
                ),
            ),
    {
        proof {
            lemma_next_start_moves_forward(self.event, self.last_occurrence, self.count);
        }
        let start = match self.last_occurrence {
            None => self.event.dt_start,
            Some(last) => match &self.event.rrule {
                None => {
                    return Ok(None);
                },
                Some(rule) => {
                    if rule.is_out_of_count(self.count) {
                        return Ok(None);
                    }
                    match next_accepted_by_rule(self.event, rule, last) {
                        Step::Moved(m) => m,
                        Step::End => {
                            return Ok(None);
                        },
                        Step::Unsupported => {
                            return Err(OccurrenceError::Unsupported);
                        },
                    }
                },
            },
        };
        let delta = self.event.dt_end.seconds_since(self.event.dt_start);
        match start.plus_seconds(delta) {
            None => Ok(None),
            Some(end) => {
                self.last_occurrence = Some(start);
                if self.count < u32::MAX {
                    self.count += 1;
                }
                Ok(Some(core::ops::Range { start, end }))
            },
        }
    }
}

} // verus!
