use vstd::prelude::*;

use crate::block::{parse_block, Block, BlockParseError, BlockView};
use crate::ical_line_parser::{logical_lines, raw_lines, split_lines, unfold_lines};
use crate::text::{chars_of, span_equals, Span};
use crate::vevent::VEvent;
use crate::vevent_text::{parse_event, VEventFormatError, VEventFormatErrorView, VEventView};
use crate::vtimezone::{
    parse_timezone, VTimezone, VTimezoneParseError, VTimezoneParseErrorView, VTimezoneView,
};

verus! {

/// A calendar: its time zones and its events, each in the order of the text.
#[derive(Debug, Clone, Default)]
pub struct VCalendar {
    pub timezones: Vec<VTimezone>,
    pub events: Vec<VEvent>,
}

#[derive(Debug)]
pub enum VCalendarParseError {
    VTimezoneParseError(VTimezoneParseError),
    /// A block of the calendar is neither a time zone nor an event.
    UnsupportedTagError { tag: String },
    VEventFormatError(VEventFormatError),
    /// The text does not begin with a `BEGIN:` line.
    BlockParseError(BlockParseError),
}

pub struct VCalendarView {
    pub timezones: Seq<VTimezoneView>,
    pub events: Seq<VEventView>,
}

pub enum VCalendarParseErrorView {
    VTimezoneParseError(VTimezoneParseErrorView),
    UnsupportedTagError { tag: Seq<char> },
    VEventFormatError(VEventFormatErrorView),
    BlockParseError(BlockParseError),
}

/// The views of some time zones.
pub open spec fn timezone_views(timezones: Seq<VTimezone>) -> Seq<VTimezoneView> {
    Seq::new(timezones.len(), |i: int| timezones[i]@)
}

/// The views of some events.
pub open spec fn event_views(events: Seq<VEvent>) -> Seq<VEventView> {
    Seq::new(events.len(), |i: int| events[i]@)
}

impl View for VCalendar {
    type V = VCalendarView;

    open spec fn view(&self) -> VCalendarView {
        VCalendarView {
            timezones: timezone_views(self.timezones@),
            events: event_views(self.events@),
        }
    }
}

impl View for VCalendarParseError {
    type V = VCalendarParseErrorView;

    open spec fn view(&self) -> VCalendarParseErrorView {
        match self {
            VCalendarParseError::VTimezoneParseError(e) => {
                VCalendarParseErrorView::VTimezoneParseError(e@)
            },
            VCalendarParseError::UnsupportedTagError { tag } => {
                VCalendarParseErrorView::UnsupportedTagError { tag: tag@ }
            },
            VCalendarParseError::VEventFormatError(e) => {
                VCalendarParseErrorView::VEventFormatError(e@)
            },
            VCalendarParseError::BlockParseError(e) => VCalendarParseErrorView::BlockParseError(*e),
        }
    }
}

impl VCalendar {
    /// Every event of the calendar is a valid one.
    pub open spec fn is_valid(&self) -> bool {
        forall|i: int| 0 <= i < self.events@.len() ==> (#[trigger] self.events@[i]).is_valid()
    }
}

/// What one block adds to a calendar: a `VTIMEZONE` block a time zone, a `VEVENT` block an
/// event; any other block is an error.
pub open spec fn calendar_block(calendar: VCalendarView, block: BlockView, local_offset: int) -> Result<
    VCalendarView,
    VCalendarParseErrorView,
> {
    if block.name == "VTIMEZONE"@ {
        match parse_timezone(block, local_offset) {
            Ok(timezone) => Ok(
                VCalendarView { timezones: calendar.timezones.push(timezone), ..calendar },
            ),
            Err(e) => Err(VCalendarParseErrorView::VTimezoneParseError(e)),
        }
    } else if block.name == "VEVENT"@ {
        match parse_event(block, local_offset) {
            Ok(event) => Ok(VCalendarView { events: calendar.events.push(event), ..calendar }),
            Err(e) => Err(VCalendarParseErrorView::VEventFormatError(e)),
        }
    } else {
        Err(VCalendarParseErrorView::UnsupportedTagError { tag: block.name })
    }
}

/// What the first `k` blocks make of a calendar; the first block that fails is the error.
pub open spec fn calendar_blocks(blocks: Seq<BlockView>, k: int, local_offset: int) -> Result<
    VCalendarView,
    VCalendarParseErrorView,
>
    decreases k,
{
    if k <= 0 || k > blocks.len() {
        Ok(VCalendarView { timezones: Seq::empty(), events: Seq::empty() })
    } else {
        match calendar_blocks(blocks, k - 1, local_offset) {
            Err(e) => Err(e),
            Ok(calendar) => calendar_block(calendar, blocks[k - 1], local_offset),
        }
    }
}

/// The calendar that a text describes: its lines, unfolded, are one block, and the blocks
/// in that block are the calendar's time zones and events.
pub open spec fn parse_calendar(text: Seq<char>, local_offset: int) -> Result<
    VCalendarView,
    VCalendarParseErrorView,
> {
    match parse_block(logical_lines(split_lines(text), 0)) {
        Err(e) => Err(VCalendarParseErrorView::BlockParseError(e)),
        Ok(block) => calendar_blocks(
            block.inner_blocks,
            block.inner_blocks.len() as int,
            local_offset,
        ),
    }
}

pub open spec fn calendar_result_view(r: Result<VCalendar, VCalendarParseError>) -> Result<
    VCalendarView,
    VCalendarParseErrorView,
> {
    match r {
        Ok(calendar) => Ok(calendar@),
        Err(e) => Err(e@),
    }
}

/// Once a block has failed, the blocks have failed.
pub proof fn lemma_calendar_blocks_error_stays(
    blocks: Seq<BlockView>,
    k: int,
    n: int,
    local_offset: int,
)
    requires
        1 <= k <= n <= blocks.len(),
        calendar_blocks(blocks, k, local_offset) is Err,
    ensures
        calendar_blocks(blocks, n, local_offset) == calendar_blocks(blocks, k, local_offset),
    decreases n - k,
{
    if k < n {
        lemma_calendar_blocks_error_stays(blocks, k, n - 1, local_offset);
    }
}

/// Whether a text is exactly a word.
fn text_is(text: &str, word: &str) -> (r: bool)
    ensures
        r == (text@ == word@),
{
    let chars = chars_of(text);
    let whole = Span { start: 0, end: chars.len() };
    assert(whole.of(chars@) =~= text@);
    span_equals(&chars, whole, word)
}

impl VCalendar {
    /// Builds a calendar from the blocks of its block.
    ///
    /// `local_offset` is the number of seconds by which the local clock is ahead of UTC; it
    /// decides what a moment without a `Z` and without a zone means.
    pub fn try_from(block: &Block, local_offset: i32) -> (r: Result<VCalendar, VCalendarParseError>)
        ensures
            calendar_result_view(r) == calendar_blocks(
                block@.inner_blocks,
                block@.inner_blocks.len() as int,
                local_offset as int,
            ),
            r matches Ok(calendar) ==> calendar.is_valid(),
    {
        let ghost blocks = block@.inner_blocks;
        let mut timezones: Vec<VTimezone> = Vec::new();
        let mut events: Vec<VEvent> = Vec::new();
        let mut k: usize = 0;
        assert(timezone_views(timezones@) =~= Seq::<VTimezoneView>::empty());
        assert(event_views(events@) =~= Seq::<VEventView>::empty());
        while k < block.inner_blocks.len()
            invariant
                blocks == block@.inner_blocks,
                blocks.len() == block.inner_blocks@.len(),
                forall|j: int| 0 <= j < blocks.len() ==> blocks[j] == (#[trigger] block.inner_blocks@[j])@,
                k <= block.inner_blocks@.len(),
                forall|j: int| 0 <= j < events@.len() ==> (#[trigger] events@[j]).is_valid(),
                calendar_blocks(blocks, k as int, local_offset as int) == Ok::<
                    VCalendarView,
                    VCalendarParseErrorView,
                >(
                    VCalendarView {
                        timezones: timezone_views(timezones@),
                        events: event_views(events@),
                    },
                ),
            decreases block.inner_blocks@.len() - k,
        {
            let inner = &block.inner_blocks[k];
            assert(blocks[k as int] == inner@);
            if text_is(inner.name(), "VTIMEZONE") {
                match VTimezone::try_from(inner, local_offset) {
                    Ok(timezone) => {
                        proof {
                            assert(timezone_views(timezones@.push(timezone)) =~= timezone_views(
                                timezones@,
                            ).push(timezone@));
                        }
                        timezones.push(timezone);
                    },
                    Err(e) => {
                        proof {
                            lemma_calendar_blocks_error_stays(
                                blocks,
                                k + 1,
                                blocks.len() as int,
                                local_offset as int,
                            );
                        }
                        return Err(VCalendarParseError::VTimezoneParseError(e));
                    },
                }
            } else if text_is(inner.name(), "VEVENT") {
                match VEvent::try_from(inner, local_offset) {
                    Ok(event) => {
                        proof {
                            assert(event_views(events@.push(event)) =~= event_views(events@).push(
                                event@,
                            ));
                        }
                        events.push(event);
                    },
                    Err(e) => {
                        proof {
                            lemma_calendar_blocks_error_stays(
                                blocks,
                                k + 1,
                                blocks.len() as int,
                                local_offset as int,
                            );
                        }
                        return Err(VCalendarParseError::VEventFormatError(e));
                    },
                }
            } else {
                proof {
                    lemma_calendar_blocks_error_stays(
                        blocks,
                        k + 1,
                        blocks.len() as int,
                        local_offset as int,
                    );
                }
                return Err(VCalendarParseError::UnsupportedTagError { tag: inner.name().to_owned() });
            }
            k += 1;
        }
        Ok(VCalendar { timezones, events })
    }

    /// Reads a calendar from its text, whose lines end with a carriage return and a line feed.
    pub fn parse(whole_text: &str, local_offset: i32) -> (r: Result<VCalendar, VCalendarParseError>)
        ensures
            calendar_result_view(r) == parse_calendar(whole_text@, local_offset as int),
            r matches Ok(calendar) ==> calendar.is_valid(),
    {
        let contents = raw_lines(whole_text);
        let ical_lines = unfold_lines(contents.as_slice());
        match Block::try_from(ical_lines.as_slice()) {
            Err(e) => Err(VCalendarParseError::BlockParseError(e)),
            Ok(block) => VCalendar::try_from(&block, local_offset),
        }
    }
}

} // verus!
