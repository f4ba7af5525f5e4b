use vstd::prelude::*;
use vstd::string::StrSliceExecFns;

use crate::block::{texts, Block, BlockView};
use crate::date_or_date_time::DateOrDateTime;
use crate::date_time_text::{
    parse_instant, parse_moment, read_instant, read_moment, DateTimeParseError,
};
use crate::rrule::{rule_view, RRule, RRuleParseError, RRuleParseErrorView, RRuleView};
use crate::rrule_text::parse_rrule;
use crate::text::{
    chars_of, first_index_of, index_of, parse_unsigned, read_unsigned, span_equals,
    span_to_string, text_view, Span,
};
use crate::tzid_date_time::{
    parse_tzid_date_time, TzIdDateTime, TzIdDateTimeFormatError, TzIdDateTimeView,
};
use crate::vevent::VEvent;

verus! {

#[derive(Debug)]
pub enum VEventFormatError {
    /// A line has a tag and nothing after a `:`.
    MissingColon { block: Block },
    /// A line has a tag and nothing after a `;`.
    MissingSemicolon { block: Block },
    /// The block has no line for the field.
    MissingMandatoryField { block: Block, field: String },
    /// What follows `SEQUENCE:` is no 32-bit number.
    SequenceParseIntError { block: Block },
    RRuleParseError(RRuleParseError),
    TzIdDateTimeFormatError(TzIdDateTimeFormatError),
    /// A moment is malformed.
    ChronoParseError(DateTimeParseError),
}

pub enum VEventFormatErrorView {
    MissingColon { block: BlockView },
    MissingSemicolon { block: BlockView },
    MissingMandatoryField { block: BlockView, field: Seq<char> },
    SequenceParseIntError { block: BlockView },
    RRuleParseError(RRuleParseErrorView),
    TzIdDateTimeFormatError(TzIdDateTimeFormatError),
    ChronoParseError(DateTimeParseError),
}

impl View for VEventFormatError {
    type V = VEventFormatErrorView;

    open spec fn view(&self) -> VEventFormatErrorView {
        match self {
            VEventFormatError::MissingColon { block } => {
                VEventFormatErrorView::MissingColon { block: block@ }
            },
            VEventFormatError::MissingSemicolon { block } => {
                VEventFormatErrorView::MissingSemicolon { block: block@ }
            },
            VEventFormatError::MissingMandatoryField { block, field } => {
                VEventFormatErrorView::MissingMandatoryField { block: block@, field: field@ }
            },
            VEventFormatError::SequenceParseIntError { block } => {
                VEventFormatErrorView::SequenceParseIntError { block: block@ }
            },
            VEventFormatError::RRuleParseError(e) => VEventFormatErrorView::RRuleParseError(e@),
            VEventFormatError::TzIdDateTimeFormatError(e) => {
                VEventFormatErrorView::TzIdDateTimeFormatError(*e)
            },
            VEventFormatError::ChronoParseError(e) => VEventFormatErrorView::ChronoParseError(*e),
        }
    }
}

impl VEventFormatError {
    pub fn missing_colon(block: Block) -> (r: Self)
        ensures
            r@ == (VEventFormatErrorView::MissingColon { block: block@ }),
    {
        VEventFormatError::MissingColon { block }
    }

    pub fn missing_semicolon(block: Block) -> (r: Self)
        ensures
            r@ == (VEventFormatErrorView::MissingSemicolon { block: block@ }),
    {
        VEventFormatError::MissingSemicolon { block }
    }

    pub fn missing_mandatory_field(block: Block, field: &str) -> (r: Self)
        ensures
            r@ == (VEventFormatErrorView::MissingMandatoryField { block: block@, field: field@ }),
    {
        VEventFormatError::MissingMandatoryField { field: field.to_owned(), block }
    }

    pub fn sequence_parse_int_error(block: Block) -> (r: Self)
        ensures
            r@ == (VEventFormatErrorView::SequenceParseIntError { block: block@ }),
    {
        VEventFormatError::SequenceParseIntError { block }
    }
}

pub struct VEventView {
    pub dt_created: DateOrDateTime,
    pub dt_last_modified: DateOrDateTime,
    pub dt_start: DateOrDateTime,
    pub dt_end: DateOrDateTime,
    pub dt_stamp: DateOrDateTime,
    pub summary: Seq<char>,
    pub description: Option<Seq<char>>,
    pub rrule: Option<RRuleView>,
    pub exdates: Seq<TzIdDateTimeView>,
    pub sequence: u32,
    pub status: Option<Seq<char>>,
    pub organizer: Option<Seq<char>>,
    pub google_conference_url: Option<Seq<char>>,
}

/// The views of some moments with their zones.
pub open spec fn exdate_views(exdates: Seq<TzIdDateTime>) -> Seq<TzIdDateTimeView> {
    Seq::new(exdates.len(), |i: int| exdates[i]@)
}

impl View for VEvent {
    type V = VEventView;

    open spec fn view(&self) -> VEventView {
        VEventView {
            dt_created: self.dt_created,
            dt_last_modified: self.dt_last_modified,
            dt_start: self.dt_start,
            dt_end: self.dt_end,
            dt_stamp: self.dt_stamp,
            summary: self.summary@,
            description: text_view(self.description),
            rrule: rule_view(self.rrule),
            exdates: exdate_views(self.exdates@),
            sequence: self.sequence,
            status: text_view(self.status),
            organizer: text_view(self.organizer),
            google_conference_url: text_view(self.google_conference_url),
        }
    }
}

/// What the lines of an event's block have given so far.
pub struct EventFields {
    pub dt_created: Option<DateOrDateTime>,
    pub dt_last_modified: Option<DateOrDateTime>,
    pub dt_start: Option<DateOrDateTime>,
    pub dt_end: Option<DateOrDateTime>,
    pub dt_stamp: Option<DateOrDateTime>,
    pub summary: Option<String>,
    pub description: Option<String>,
    pub rrule: Option<RRule>,
    pub exdates: Vec<TzIdDateTime>,
    pub sequence: Option<u32>,
    pub status: Option<String>,
    pub organizer: Option<String>,
    pub google_conference_url: Option<String>,
}

pub struct EventFieldsView {
    pub dt_created: Option<DateOrDateTime>,
    pub dt_last_modified: Option<DateOrDateTime>,
    pub dt_start: Option<DateOrDateTime>,
    pub dt_end: Option<DateOrDateTime>,
    pub dt_stamp: Option<DateOrDateTime>,
    pub summary: Option<Seq<char>>,
    pub description: Option<Seq<char>>,
    pub rrule: Option<RRuleView>,
    pub exdates: Seq<TzIdDateTimeView>,
    pub sequence: Option<u32>,
    pub status: Option<Seq<char>>,
    pub organizer: Option<Seq<char>>,
    pub google_conference_url: Option<Seq<char>>,
}

impl View for EventFields {
    type V = EventFieldsView;

    open spec fn view(&self) -> EventFieldsView {
        EventFieldsView {
            dt_created: self.dt_created,
            dt_last_modified: self.dt_last_modified,
            dt_start: self.dt_start,
            dt_end: self.dt_end,
            dt_stamp: self.dt_stamp,
            summary: text_view(self.summary),
            description: text_view(self.description),
            rrule: rule_view(self.rrule),
            exdates: exdate_views(self.exdates@),
            sequence: self.sequence,
            status: text_view(self.status),
            organizer: text_view(self.organizer),
            google_conference_url: text_view(self.google_conference_url),
        }
    }
}

impl EventFieldsView {
    /// Start and end, as far as they are there, are valid moments, and so is the rule.
    pub open spec fn is_valid(self) -> bool {
        &&& self.dt_start matches Some(m) ==> m.is_valid()
        &&& self.dt_end matches Some(m) ==> m.is_valid()
        &&& self.rrule matches Some(rule) ==> rule.is_valid()
    }
}

/// The fields of a block of which no line was read yet.
pub open spec fn no_fields() -> EventFieldsView {
    EventFieldsView {
        dt_created: None,
        dt_last_modified: None,
        dt_start: None,
        dt_end: None,
        dt_stamp: None,
        summary: None,
        description: None,
        rrule: None,
        exdates: Seq::empty(),
        sequence: None,
        status: None,
        organizer: None,
        google_conference_url: None,
    }
}

/// The tag of a line: what stands before its first `sep`, or the whole line.
pub open spec fn tag_before(line: Seq<char>, sep: char) -> Seq<char> {
    line.subrange(0, first_index_of(line, sep))
}

/// What follows the first `sep` of a line, where anything does.
pub open spec fn extra_after(line: Seq<char>, sep: char) -> Option<Seq<char>> {
    let i = first_index_of(line, sep);
    if i + 1 < line.len() {
        Some(line.subrange(i + 1, line.len() as int))
    } else {
        None
    }
}

/// A moment that has to follow a tag and its `:`.
pub open spec fn moment_after_colon(extra: Option<Seq<char>>, block: BlockView, local_offset: int) -> Result<
    DateOrDateTime,
    VEventFormatErrorView,
> {
    match extra {
        None => Err(VEventFormatErrorView::MissingColon { block }),
        Some(text) => match parse_moment(text, local_offset) {
            Ok(m) => Ok(m),
            Err(e) => Err(VEventFormatErrorView::ChronoParseError(e)),
        },
    }
}

/// A moment with its zone that follows a tag and its `;`.
pub open spec fn moment_after_semicolon(extra: Option<Seq<char>>, block: BlockView) -> Result<
    DateOrDateTime,
    VEventFormatErrorView,
> {
    match extra {
        None => Err(VEventFormatErrorView::MissingSemicolon { block }),
        Some(text) => match parse_tzid_date_time(text) {
            Ok(t) => Ok(t.date_time),
            Err(e) => Err(VEventFormatErrorView::TzIdDateTimeFormatError(e)),
        },
    }
}

/// What a line adds to the fields by its tag before the first `:`.
pub open spec fn event_colon_line(
    fields: EventFieldsView,
    line: Seq<char>,
    block: BlockView,
    local_offset: int,
) -> Result<EventFieldsView, VEventFormatErrorView> {
    let tag = tag_before(line, ':');
    let extra = extra_after(line, ':');
    if tag == "LAST-MODIFIED"@ {
        match moment_after_colon(extra, block, local_offset) {
            Ok(m) => Ok(EventFieldsView { dt_last_modified: Some(m), ..fields }),
            Err(e) => Err(e),
        }
    } else if tag == "DTSTART"@ {
        match extra {
            None => Err(VEventFormatErrorView::MissingColon { block }),
            Some(text) => match parse_instant(text, local_offset) {
                Ok(t) => Ok(
                    EventFieldsView { dt_start: Some(DateOrDateTime::DateTime(t)), ..fields },
                ),
                Err(e) => Err(VEventFormatErrorView::ChronoParseError(e)),
            },
        }
    } else if tag == "DTEND"@ {
        match moment_after_colon(extra, block, local_offset) {
            Ok(m) => Ok(EventFieldsView { dt_end: Some(m), ..fields }),
            Err(e) => Err(e),
        }
    } else if tag == "CREATED"@ {
        match moment_after_colon(extra, block, local_offset) {
            Ok(m) => Ok(EventFieldsView { dt_created: Some(m), ..fields }),
            Err(e) => Err(e),
        }
    } else if tag == "DTSTAMP"@ {
        match moment_after_colon(extra, block, local_offset) {
            Ok(m) => Ok(EventFieldsView { dt_stamp: Some(m), ..fields }),
            Err(e) => Err(e),
        }
    } else if tag == "SUMMARY"@ {
        match extra {
            None => Err(VEventFormatErrorView::MissingColon { block }),
            Some(text) => Ok(EventFieldsView { summary: Some(text), ..fields }),
        }
    } else if tag == "DESCRIPTION"@ {
        Ok(EventFieldsView { description: extra, ..fields })
    } else if tag == "SEQUENCE"@ {
        match extra {
            None => Ok(EventFieldsView { sequence: None, ..fields }),
            Some(text) => match parse_unsigned(text, u32::MAX as int) {
                Some(n) => Ok(EventFieldsView { sequence: Some(n as u32), ..fields }),
                None => Err(VEventFormatErrorView::SequenceParseIntError { block }),
            },
        }
    } else if tag == "RRULE"@ {
        match extra {
            None => Err(VEventFormatErrorView::MissingColon { block }),
            Some(text) => match parse_rrule(text, local_offset) {
                Ok(rule) => Ok(EventFieldsView { rrule: Some(rule), ..fields }),
                Err(e) => Err(VEventFormatErrorView::RRuleParseError(e)),
            },
        }
    } else if tag == "STATUS"@ {
        match extra {
            None => Err(VEventFormatErrorView::MissingColon { block }),
            Some(text) => Ok(EventFieldsView { status: Some(text), ..fields }),
        }
    } else if tag == "X-GOOGLE-CONFERENCE"@ {
        Ok(EventFieldsView { google_conference_url: extra, ..fields })
    } else {
        Ok(fields)
    }
}

/// What a line adds to the fields by its tag before the first `;`.
pub open spec fn event_semicolon_line(fields: EventFieldsView, line: Seq<char>, block: BlockView) -> Result<
    EventFieldsView,
    VEventFormatErrorView,
> {
    let tag = tag_before(line, ';');
    let extra = extra_after(line, ';');
    if tag == "ORGANIZER"@ {
        match extra {
            None => Err(VEventFormatErrorView::MissingColon { block }),
            Some(text) => Ok(EventFieldsView { organizer: Some(text), ..fields }),
        }
    } else if tag == "EXDATE"@ {
        match extra {
            None => Err(VEventFormatErrorView::MissingSemicolon { block }),
            Some(text) => match parse_tzid_date_time(text) {
                Ok(t) => Ok(EventFieldsView { exdates: fields.exdates.push(t), ..fields }),
                Err(e) => Err(VEventFormatErrorView::TzIdDateTimeFormatError(e)),
            },
        }
    } else if tag == "DTSTART"@ {
        match moment_after_semicolon(extra, block) {
            Ok(m) => Ok(EventFieldsView { dt_start: Some(m), ..fields }),
            Err(e) => Err(e),
        }
    } else if tag == "DTEND"@ {
        match moment_after_semicolon(extra, block) {
            Ok(m) => Ok(EventFieldsView { dt_end: Some(m), ..fields }),
            Err(e) => Err(e),
        }
    } else {
        Ok(fields)
    }
}

/// What one line adds to the fields of an event: first by its tag before a `:`, then by its
/// tag before a `;`.
pub open spec fn event_line(
    fields: EventFieldsView,
    line: Seq<char>,
    block: BlockView,
    local_offset: int,
) -> Result<EventFieldsView, VEventFormatErrorView> {
    match event_colon_line(fields, line, block, local_offset) {
        Err(e) => Err(e),
        Ok(fields) => event_semicolon_line(fields, line, block),
    }
}

/// What the first `k` lines give: each line adds to what the lines before it gave, and the
/// first line that fails is the error.
pub open spec fn event_lines(lines: Seq<Seq<char>>, k: int, block: BlockView, local_offset: int) -> Result<
    EventFieldsView,
    VEventFormatErrorView,
>
    decreases k,
{
    if k <= 0 || k > lines.len() {
        Ok(no_fields())
    } else {
        match event_lines(lines, k - 1, block, local_offset) {
            Err(e) => Err(e),
            Ok(fields) => event_line(fields, lines[k - 1], block, local_offset),
        }
    }
}

/// The event that the fields make, or the first that is missing of start, last change,
/// creation, stamp, summary and sequence number. An event without an end ends as it starts.
pub open spec fn event_of_fields(fields: EventFieldsView, block: BlockView) -> Result<
    VEventView,
    VEventFormatErrorView,
> {
    match (
        fields.dt_start,
        fields.dt_last_modified,
        fields.dt_created,
        fields.dt_stamp,
        fields.summary,
        fields.sequence,
    ) {
        (None, _, _, _, _, _) => Err(
            VEventFormatErrorView::MissingMandatoryField { block, field: "DTSTART"@ },
        ),
        (_, None, _, _, _, _) => Err(
            VEventFormatErrorView::MissingMandatoryField { block, field: "LAST-MODIFIED"@ },
        ),
        (_, _, None, _, _, _) => Err(
            VEventFormatErrorView::MissingMandatoryField { block, field: "CREATED"@ },
        ),
        (_, _, _, None, _, _) => Err(
            VEventFormatErrorView::MissingMandatoryField { block, field: "DTSTAMP"@ },
        ),
        (_, _, _, _, None, _) => Err(
            VEventFormatErrorView::MissingMandatoryField { block, field: "SUMMARY"@ },
        ),
        (_, _, _, _, _, None) => Err(
            VEventFormatErrorView::MissingMandatoryField { block, field: "SEQUENCE"@ },
        ),
        (
            Some(dt_start),
            Some(dt_last_modified),
            Some(dt_created),
            Some(dt_stamp),
            Some(summary),
            Some(sequence),
        ) => Ok(
            VEventView {
                dt_created,
                dt_last_modified,
                dt_start,
                dt_end: match fields.dt_end {
                    Some(dt_end) => dt_end,
                    None => dt_start,
                },
                dt_stamp,
                summary,
                description: fields.description,
                rrule: fields.rrule,
                exdates: fields.exdates,
                sequence,
                status: fields.status,
                organizer: fields.organizer,
                google_conference_url: fields.google_conference_url,
            },
        ),
    }
}

/// The event that a block describes.
pub open spec fn parse_event(block: BlockView, local_offset: int) -> Result<
    VEventView,
    VEventFormatErrorView,
> {
    match event_lines(block.inner_lines, block.inner_lines.len() as int, block, local_offset) {
        Err(e) => Err(e),
        Ok(fields) => event_of_fields(fields, block),
    }
}

pub open spec fn event_fields_result_view(r: Result<EventFields, VEventFormatError>) -> Result<
    EventFieldsView,
    VEventFormatErrorView,
> {
    match r {
        Ok(fields) => Ok(fields@),
        Err(e) => Err(e@),
    }
}

pub open spec fn event_result_view(r: Result<VEvent, VEventFormatError>) -> Result<
    VEventView,
    VEventFormatErrorView,
> {
    match r {
        Ok(event) => Ok(event@),
        Err(e) => Err(e@),
    }
}

/// The range of what follows the separator at `at`, where anything does.
fn extra_span(at: usize, len: usize) -> (r: Option<Span>)
    requires
        at <= len,
    ensures
        r == (if at + 1 < len {
            Some(Span { start: (at + 1) as usize, end: len })
        } else {
            None
        }),
{
    if at < len && at + 1 < len {
        Some(Span { start: at + 1, end: len })
    } else {
        None
    }
}

/// Reads a moment that has to follow a tag and its `:`.
fn read_moment_after_colon(
    chars: &Vec<char>,
    extra: Option<Span>,
    block: &Block,
    local_offset: i32,
) -> (r: Result<DateOrDateTime, VEventFormatError>)
    requires
        extra matches Some(span) ==> span.within(chars@.len() as int),
    ensures
        match r {
            Ok(m) => moment_after_colon(
                match extra {
                    Some(span) => Some(span.of(chars@)),
                    None => None,
                },
                block@,
                local_offset as int,
            ) == Ok::<DateOrDateTime, VEventFormatErrorView>(m) && m.is_valid(),
            Err(e) => moment_after_colon(
                match extra {
                    Some(span) => Some(span.of(chars@)),
                    None => None,
                },
                block@,
                local_offset as int,
            ) == Err::<DateOrDateTime, VEventFormatErrorView>(e@),
        },
{
    match extra {
        None => Err(VEventFormatError::missing_colon(block.duplicate())),
        Some(span) => match read_moment(chars, span, local_offset) {
            Ok(m) => Ok(m),
            Err(e) => Err(VEventFormatError::ChronoParseError(e)),
        },
    }
}

/// Reads a moment with its zone that follows a tag and its `;`.
fn read_moment_after_semicolon(line: &str, extra: Option<Span>, block: &Block) -> (r: Result<
    DateOrDateTime,
    VEventFormatError,
>)
    requires
        extra matches Some(span) ==> span.within(line@.len() as int),
    ensures
        match r {
            Ok(m) => moment_after_semicolon(
                match extra {
                    Some(span) => Some(span.of(line@)),
                    None => None,
                },
                block@,
            ) == Ok::<DateOrDateTime, VEventFormatErrorView>(m) && m.is_valid(),
            Err(e) => moment_after_semicolon(
                match extra {
                    Some(span) => Some(span.of(line@)),
                    None => None,
                },
                block@,
            ) == Err::<DateOrDateTime, VEventFormatErrorView>(e@),
        },
{
    match extra {
        None => Err(VEventFormatError::missing_semicolon(block.duplicate())),
        Some(span) => match TzIdDateTime::parse(line.substring_char(span.start, span.end)) {
            Ok(t) => Ok(t.date_time),
            Err(e) => Err(VEventFormatError::TzIdDateTimeFormatError(e)),
        },
    }
}

/// The text in a range that may be there, as a `String` of its own.
fn optional_text(line: &str, extra: Option<Span>) -> (r: Option<String>)
    requires
        extra matches Some(span) ==> span.within(line@.len() as int),
    ensures
        text_view(r) == (match extra {
            Some(span) => Some(span.of(line@)),
            None => None,
        }),
{
    match extra {
        Some(span) => Some(span_to_string(line, span)),
        None => None,
    }
}

/// Adds what a line says by its tag before the first `:`.
pub fn read_event_colon_line(fields: EventFields, line: &str, block: &Block, local_offset: i32) -> (r:
    Result<EventFields, VEventFormatError>)
    requires
        fields@.is_valid(),
    ensures
        event_fields_result_view(r) == event_colon_line(
            fields@,
            line@,
            block@,
            local_offset as int,
        ),
        r matches Ok(next) ==> next@.is_valid(),
{
    let chars = chars_of(line);
    let n = chars.len();
    let colon = index_of(&chars, ':');
    let tag = Span { start: 0, end: colon };
    let extra = extra_span(colon, n);
    assert(tag.of(chars@) =~= tag_before(line@, ':'));
    assert(extra_after(line@, ':') == (match extra {
        Some(span) => Some(span.of(chars@)),
        None => None,
    }));
    let mut fields = fields;
    if span_equals(&chars, tag, "LAST-MODIFIED") {
        match read_moment_after_colon(&chars, extra, block, local_offset) {
            Ok(m) => {
                fields.dt_last_modified = Some(m);
                Ok(fields)
            },
            Err(e) => Err(e),
        }
    } else if span_equals(&chars, tag, "DTSTART") {
        match extra {
            None => Err(VEventFormatError::missing_colon(block.duplicate())),
            Some(span) => match read_instant(&chars, span, local_offset) {
                Ok(t) => {
                    fields.dt_start = Some(DateOrDateTime::DateTime(t));
                    Ok(fields)
                },
                Err(e) => Err(VEventFormatError::ChronoParseError(e)),
            },
        }
    } else if span_equals(&chars, tag, "DTEND") {
        match read_moment_after_colon(&chars, extra, block, local_offset) {
            Ok(m) => {
                fields.dt_end = Some(m);
                Ok(fields)
            },
            Err(e) => Err(e),
        }
    } else if span_equals(&chars, tag, "CREATED") {
        match read_moment_after_colon(&chars, extra, block, local_offset) {
            Ok(m) => {
                fields.dt_created = Some(m);
                Ok(fields)
            },
            Err(e) => Err(e),
        }
    } else if span_equals(&chars, tag, "DTSTAMP") {
        match read_moment_after_colon(&chars, extra, block, local_offset) {
            Ok(m) => {
                fields.dt_stamp = Some(m);
                Ok(fields)
            },
            Err(e) => Err(e),
        }
    } else if span_equals(&chars, tag, "SUMMARY") {
        match extra {
            None => Err(VEventFormatError::missing_colon(block.duplicate())),
            Some(span) => {
                fields.summary = Some(span_to_string(line, span));
                Ok(fields)
            },
        }
    } else if span_equals(&chars, tag, "DESCRIPTION") {
        fields.description = optional_text(line, extra);
        Ok(fields)
    } else if span_equals(&chars, tag, "SEQUENCE") {
        match extra {
            None => {
                fields.sequence = None;
                Ok(fields)
            },
            Some(span) => match read_unsigned(&chars, span, u32::MAX as u64) {
                Some(n) => {
                    fields.sequence = Some(n as u32);
                    Ok(fields)
                },
                None => Err(VEventFormatError::sequence_parse_int_error(block.duplicate())),
            },
        }
    } else if span_equals(&chars, tag, "RRULE") {
        match extra {
            None => Err(VEventFormatError::missing_colon(block.duplicate())),
            Some(span) => match RRule::parse(
                line.substring_char(span.start, span.end),
                local_offset,
            ) {
                Ok(rule) => {
                    fields.rrule = Some(rule);
                    Ok(fields)
                },
                Err(e) => Err(VEventFormatError::RRuleParseError(e)),
            },
        }
    } else if span_equals(&chars, tag, "STATUS") {
        match extra {
            None => Err(VEventFormatError::missing_colon(block.duplicate())),
            Some(span) => {
                fields.status = Some(span_to_string(line, span));
                Ok(fields)
            },
        }
    } else if span_equals(&chars, tag, "X-GOOGLE-CONFERENCE") {
        fields.google_conference_url = optional_text(line, extra);
        Ok(fields)
    } else {
        Ok(fields)
    }
}

/// Adds what a line says by its tag before the first `;`.
pub fn read_event_semicolon_line(fields: EventFields, line: &str, block: &Block) -> (r: Result<
    EventFields,
    VEventFormatError,
>)
    requires
        fields@.is_valid(),
    ensures
        event_fields_result_view(r) == event_semicolon_line(fields@, line@, block@),
        r matches Ok(next) ==> next@.is_valid(),
{
    let chars = chars_of(line);
    let n = chars.len();
    let semicolon = index_of(&chars, ';');
    let tag = Span { start: 0, end: semicolon };
    let extra = extra_span(semicolon, n);
    assert(tag.of(chars@) =~= tag_before(line@, ';'));
    assert(extra_after(line@, ';') == (match extra {
        Some(span) => Some(span.of(chars@)),
        None => None,
    }));
    let mut fields = fields;
    if span_equals(&chars, tag, "ORGANIZER") {
        match extra {
            None => Err(VEventFormatError::missing_colon(block.duplicate())),
            Some(span) => {
                fields.organizer = Some(span_to_string(line, span));
                Ok(fields)
            },
        }
    } else if span_equals(&chars, tag, "EXDATE") {
        match extra {
            None => Err(VEventFormatError::missing_semicolon(block.duplicate())),
            Some(span) => match TzIdDateTime::parse(line.substring_char(span.start, span.end)) {
                Ok(t) => {
                    proof {
                        assert(exdate_views(fields.exdates@.push(t)) =~= exdate_views(
                            fields.exdates@,
                        ).push(t@));
                    }
                    fields.exdates.push(t);
                    Ok(fields)
                },
                Err(e) => Err(VEventFormatError::TzIdDateTimeFormatError(e)),
            },
        }
    } else if span_equals(&chars, tag, "DTSTART") {
        match read_moment_after_semicolon(line, extra, block) {
            Ok(m) => {
                fields.dt_start = Some(m);
                Ok(fields)
            },
            Err(e) => Err(e),
        }
    } else if span_equals(&chars, tag, "DTEND") {
        match read_moment_after_semicolon(line, extra, block) {
            Ok(m) => {
                fields.dt_end = Some(m);
                Ok(fields)
            },
            Err(e) => Err(e),
        }
    } else {
        Ok(fields)
    }
}

/// Once a line has failed, the lines have failed.
pub proof fn lemma_event_lines_error_stays(
    lines: Seq<Seq<char>>,
    k: int,
    n: int,
    block: BlockView,
    local_offset: int,
)
    requires
        1 <= k <= n <= lines.len(),
        event_lines(lines, k, block, local_offset) is Err,
    ensures
        event_lines(lines, n, block, local_offset) == event_lines(lines, k, block, local_offset),
    decreases n - k,
{
    if k < n {
        lemma_event_lines_error_stays(lines, k, n - 1, block, local_offset);
    }
}

impl VEvent {
    /// Reads an event from its block, line by line.
    ///
    /// `local_offset` is the number of seconds by which the local clock is ahead of UTC; it
    /// decides what a moment without a `Z` and without a zone means.
    pub fn try_from(block: &Block, local_offset: i32) -> (r: Result<VEvent, VEventFormatError>)
        ensures
            event_result_view(r) == parse_event(block@, local_offset as int),
            r matches Ok(event) ==> event.is_valid(),
    {
        let mut fields = EventFields {
            dt_created: None,
            dt_last_modified: None,
            dt_start: None,
            dt_end: None,
            dt_stamp: None,
            summary: None,
            description: None,
            rrule: None,
            exdates: Vec::new(),
            sequence: None,
            status: None,
            organizer: None,
            google_conference_url: None,
        };
        let ghost lines = block@.inner_lines;
        assert(fields@.exdates =~= Seq::<TzIdDateTimeView>::empty());
        let mut i: usize = 0;
        while i < block.inner_lines.len()
            invariant
                lines == block@.inner_lines,
                lines == texts(block.inner_lines@),
                i <= block.inner_lines@.len(),
                fields@.is_valid(),
                event_lines(lines, i as int, block@, local_offset as int) == Ok::<
                    EventFieldsView,
                    VEventFormatErrorView,
                >(fields@),
            decreases block.inner_lines@.len() - i,
        {
            assert(lines[i as int] == block.inner_lines@[i as int]@);
            let line = block.inner_lines[i].as_str();
            let after_colon = match read_event_colon_line(fields, line, block, local_offset) {
                Ok(next) => next,
                Err(e) => {
                    proof {
                        lemma_event_lines_error_stays(
                            lines,
                            i + 1,
                            lines.len() as int,
                            block@,
                            local_offset as int,
                        );
                    }
                    return Err(e);
                },
            };
            match read_event_semicolon_line(after_colon, line, block) {
                Ok(next) => {
                    fields = next;
                },
                Err(e) => {
                    proof {
                        lemma_event_lines_error_stays(
                            lines,
                            i + 1,
                            lines.len() as int,
                            block@,
                            local_offset as int,
                        );
                    }
                    return Err(e);
                },
            }
            i += 1;
        }
        let dt_start = match fields.dt_start {
            Some(dt_start) => dt_start,
            None => {
                return Err(VEventFormatError::missing_mandatory_field(block.duplicate(), "DTSTART"));
            },
        };
        let dt_last_modified = match fields.dt_last_modified {
            Some(dt_last_modified) => dt_last_modified,
            None => {
                return Err(
                    VEventFormatError::missing_mandatory_field(block.duplicate(), "LAST-MODIFIED"),
                );
            },
        };
        let dt_created = match fields.dt_created {
            Some(dt_created) => dt_created,
            None => {
                return Err(VEventFormatError::missing_mandatory_field(block.duplicate(), "CREATED"));
            },
        };
        let dt_stamp = match fields.dt_stamp {
            Some(dt_stamp) => dt_stamp,
            None => {
                return Err(VEventFormatError::missing_mandatory_field(block.duplicate(), "DTSTAMP"));
            },
        };
        let summary = match fields.summary {
            Some(summary) => summary,
            None => {
                return Err(VEventFormatError::missing_mandatory_field(block.duplicate(), "SUMMARY"));
            },
        };
        let sequence = match fields.sequence {
            Some(sequence) => sequence,
            None => {
                return Err(VEventFormatError::missing_mandatory_field(block.duplicate(), "SEQUENCE"));
            },
        };
        Ok(
            VEvent {
                dt_created,
                dt_last_modified,
                dt_start,
                dt_end: match fields.dt_end {
                    Some(dt_end) => dt_end,
                    None => dt_start,
                },
                dt_stamp,
                summary,
                description: fields.description,
                rrule: fields.rrule,
                exdates: fields.exdates,
                sequence,
                status: fields.status,
                organizer: fields.organizer,
                google_conference_url: fields.google_conference_url,
            },
        )
    }
}

} // verus!
