use vstd::prelude::*;

use crate::date_or_date_time::{DateIntersectError, DateOrDateTime, EventOverlap};
use crate::rrule::{rule_view, Options, RRule, RRuleView};
use crate::tzid_date_time::TzIdDateTime;
use crate::vevent_iterator::{
    counted, lemma_next_start_moves_forward, next_start, occurrence_at, remaining, Step,
    VEventIterator,
};

verus! {

/// An event of a calendar.
#[derive(Debug, Clone)]
pub struct VEvent {
    pub dt_created: DateOrDateTime,
    pub dt_last_modified: DateOrDateTime,
    pub dt_start: DateOrDateTime,
    pub dt_end: DateOrDateTime,
    pub dt_stamp: DateOrDateTime,
    pub summary: String,
    pub description: Option<String>,
    pub rrule: Option<RRule>,
    pub exdates: Vec<TzIdDateTime>,
    pub sequence: u32,
    pub status: Option<String>,
    pub organizer: Option<String>,
    pub google_conference_url: Option<String>,
}

/// Why no occurrence could be given out.
#[derive(Debug, Clone, Copy, PartialEq, Eq, Hash, Structural)]
pub enum OccurrenceError {
    /// The rule is a yearly one by month and weekday, whose step is not defined.
    Unsupported,
    /// An occurrence starts on the moment asked for and ends before it.
    DateIntersect(DateIntersectError),
}

/// An occurrence of an event and how it lies with respect to the moment that was asked for.
#[derive(Debug)]
pub struct OccurrenceResult {
    pub occurrence: core::ops::Range<DateOrDateTime>,
    pub event_overlap: EventOverlap,
}

impl VEvent {
    /// The rule by which the event recurs, where it has one.
    pub open spec fn rule(&self) -> Option<RRuleView> {
        rule_view(self.rrule)
    }

    /// Start and end are valid moments, and so is the rule.
    pub open spec fn is_valid(&self) -> bool {
        &&& self.dt_start.is_valid()
        &&& self.dt_end.is_valid()
        &&& self.rule() matches Some(rule) ==> rule.is_valid()
    }

    /// The day of the moment is among the days that the event leaves out. Only the dates are
    /// compared, whatever the time of day.
    pub open spec fn excludes(&self, m: DateOrDateTime) -> bool {
        exists|i: int|
            0 <= i < self.exdates@.len() && (#[trigger] self.exdates@[i]).date_time.payload().same_date(
                &m.payload(),
            )
    }

    /// The first occurrence, from the one after `last` on, that is not over at the moment
    /// `dt`, with the way it lies with respect to `dt`. `Ok(None)` where the occurrences end
    /// before there is such a one.
    pub open spec fn first_unfinished(
        &self,
        last: Option<DateOrDateTime>,
        count: u32,
        dt: DateOrDateTime,
    ) -> Result<Option<OccurrenceResult>, OccurrenceError>
        decreases remaining(last),
        when self.is_valid()
    {
        match next_start(self, last, count) {
            Step::End => Ok(None),
            Step::Unsupported => Err(OccurrenceError::Unsupported),
            Step::Moved(start) => match occurrence_at(self, start) {
                None => Ok(None),
                Some(occurrence) => match dt.intersects_spec(occurrence.start, occurrence.end) {
                    Err(e) => Err(OccurrenceError::DateIntersect(e)),
                    Ok(EventOverlap::FinishesPast) => {
                        proof {
                            lemma_next_start_moves_forward(self, last, count);
                        }
                        self.first_unfinished(Some(start), counted(count), dt)
                    },
                    Ok(event_overlap) => Ok(Some(OccurrenceResult { occurrence, event_overlap })),
                },
            },
        }
    }

    /// A cursor over the occurrences of the event.
    pub fn into_iter(&self) -> (r: VEventIterator<'_>)
        ensures
            r.event() == self,
            r.last() is None,
            r.emitted() == 0,
    {
        VEventIterator::new(self)
    }

    /// Finds the first occurrence that is not over at the moment `dt`.
    ///
    /// The occurrences are gone through in order, each classified against `dt`, up to the
    /// first that does not finish in the past.
    pub fn next_occurrence_since(&self, dt: DateOrDateTime) -> (r: Result<
        Option<OccurrenceResult>,
        OccurrenceError,
    >)
        requires
            self.is_valid(),
        ensures
            r == self.first_unfinished(None, 0, dt),
    {
        let mut occurrences = VEventIterator::new(self);
        loop
            invariant
                self.is_valid(),
                occurrences.wf(),
                occurrences.event() == self,
                0 <= remaining(occurrences.last()),
                self.first_unfinished(None, 0, dt) == self.first_unfinished(
                    occurrences.last(),
                    occurrences.emitted(),
                    dt,
                ),
            decreases remaining(occurrences.last()),
        {
            proof {
                lemma_next_start_moves_forward(self, occurrences.last(), occurrences.emitted());
            }
            match occurrences.next() {
                Err(e) => {
                    return Err(e);
                },
                Ok(None) => {
                    return Ok(None);
                },
                Ok(Some(occurrence)) => {
                    match dt.intersects(occurrence.start, occurrence.end) {
                        Err(e) => {
                            return Err(OccurrenceError::DateIntersect(e));
                        },
                        Ok(EventOverlap::FinishesPast) => {},
                        Ok(event_overlap) => {
                            return Ok(Some(OccurrenceResult { occurrence, event_overlap }));
                        },
                    }
                },
            }
        }
    }

    /// Whether start and end are valid moments, and the rule a valid one.
    pub fn check_valid(&self) -> (r: bool)
        ensures
            r == self.is_valid(),
    {
        let rule_ok = match &self.rrule {
            Some(rule) => rule.common_options().check_valid(),
            None => true,
        };
        self.dt_start.check_valid() && self.dt_end.check_valid() && rule_ok
    }

    pub fn first_occurrence(&self) -> (r: DateOrDateTime)
        ensures
            r == self.dt_start,
    {
        self.dt_start
    }

    /// Whether the day of the moment is among the days that the event leaves out.
    pub fn is_excluded(&self, m: &DateOrDateTime) -> (r: bool)
        ensures
            r == self.excludes(*m),
    {
        let mut i: usize = 0;
        while i < self.exdates.len()
            invariant
                i <= self.exdates@.len(),
                forall|k: int|
                    0 <= k < i ==> !(#[trigger] self.exdates@[k]).date_time.payload().same_date(
                        &m.payload(),
                    ),
            decreases self.exdates@.len() - i,
        {
            if self.exdates[i].date_time.on_same_date(m) {
                return true;
            }
            i += 1;
        }
        false
    }
}

} // verus!
