use vstd::prelude::*;
use vstd::string::StrSliceExecFns;

use crate::block::{texts, Block, BlockView};
use crate::date_time_text::{parse_date_time_text, read_date_time, DateTimeParseError};
use crate::rrule::{rule_view, RRule, RRuleParseError, RRuleParseErrorView, RRuleView};
use crate::rrule_text::parse_rrule;
use crate::text::{
    chars_of, first_index_of, has_prefix, index_of, span_equals, span_has_prefix, span_to_string,
    text_view, Span,
};
use crate::utc_date_time::UtcDateTime;

verus! {

/// A time zone as a calendar text describes it.
#[derive(Debug, Clone)]
pub struct VTimezone {
    pub tz_id: String,
    pub offsets: Vec<VTimezoneOffset>,
}

#[derive(Debug)]
pub enum VTimezoneParseError {
    /// No line of the block begins with `TZID:`.
    TZIDTagNotFound,
    VTimezoneOffsetParseError(VTimezoneOffsetParseError),
}

#[derive(Debug)]
pub enum VTimezoneOffsetParseError {
    MissingSemicolon { block: Block },
    /// The block has no line for the field.
    MissingMandatoryField { block: Block, field: &'static str },
    /// A line of the block begins with a tag that is not known.
    UnsupportedTag { block: Block, tag: String },
    /// What follows `DTSTART:` is no date and time.
    InvalidStart(DateTimeParseError),
    /// What follows `RRULE:` is no recurrence rule.
    InvalidRule(RRuleParseError),
}

/// One of the offsets from UTC that a time zone has had, and from when on.
#[derive(Debug, Clone)]
pub struct VTimezoneOffset {
    pub tz_name: String,
    pub tz_offset_from: String,
    pub tz_offset_to: String,
    /// The day from which the offset holds, at midnight.
    pub dt_start: UtcDateTime,
    pub rrule: Option<RRule>,
}

pub struct VTimezoneOffsetView {
    pub tz_name: Seq<char>,
    pub tz_offset_from: Seq<char>,
    pub tz_offset_to: Seq<char>,
    pub dt_start: UtcDateTime,
    pub rrule: Option<RRuleView>,
}

pub struct VTimezoneView {
    pub tz_id: Seq<char>,
    pub offsets: Seq<VTimezoneOffsetView>,
}

pub enum VTimezoneOffsetParseErrorView {
    MissingSemicolon { block: BlockView },
    MissingMandatoryField { block: BlockView, field: Seq<char> },
    UnsupportedTag { block: BlockView, tag: Seq<char> },
    InvalidStart(DateTimeParseError),
    InvalidRule(RRuleParseErrorView),
}

pub enum VTimezoneParseErrorView {
    TZIDTagNotFound,
    VTimezoneOffsetParseError(VTimezoneOffsetParseErrorView),
}

impl View for VTimezoneOffset {
    type V = VTimezoneOffsetView;

    open spec fn view(&self) -> VTimezoneOffsetView {
        VTimezoneOffsetView {
            tz_name: self.tz_name@,
            tz_offset_from: self.tz_offset_from@,
            tz_offset_to: self.tz_offset_to@,
            dt_start: self.dt_start,
            rrule: rule_view(self.rrule),
        }
    }
}

/// The views of some offsets.
pub open spec fn offset_views(offsets: Seq<VTimezoneOffset>) -> Seq<VTimezoneOffsetView> {
    Seq::new(offsets.len(), |i: int| offsets[i]@)
}

impl View for VTimezone {
    type V = VTimezoneView;

    open spec fn view(&self) -> VTimezoneView {
        VTimezoneView { tz_id: self.tz_id@, offsets: offset_views(self.offsets@) }
    }
}

impl View for VTimezoneOffsetParseError {
    type V = VTimezoneOffsetParseErrorView;

    open spec fn view(&self) -> VTimezoneOffsetParseErrorView {
        match self {
            VTimezoneOffsetParseError::MissingSemicolon { block } => {
                VTimezoneOffsetParseErrorView::MissingSemicolon { block: block@ }
            },
            VTimezoneOffsetParseError::MissingMandatoryField { block, field } => {
                VTimezoneOffsetParseErrorView::MissingMandatoryField { block: block@, field: field@ }
            },
            VTimezoneOffsetParseError::UnsupportedTag { block, tag } => {
                VTimezoneOffsetParseErrorView::UnsupportedTag { block: block@, tag: tag@ }
            },
            VTimezoneOffsetParseError::InvalidStart(e) => {
                VTimezoneOffsetParseErrorView::InvalidStart(*e)
            },
            VTimezoneOffsetParseError::InvalidRule(e) => {
                VTimezoneOffsetParseErrorView::InvalidRule(e@)
            },
        }
    }
}

impl View for VTimezoneParseError {
    type V = VTimezoneParseErrorView;

    open spec fn view(&self) -> VTimezoneParseErrorView {
        match self {
            VTimezoneParseError::TZIDTagNotFound => VTimezoneParseErrorView::TZIDTagNotFound,
            VTimezoneParseError::VTimezoneOffsetParseError(e) => {
                VTimezoneParseErrorView::VTimezoneOffsetParseError(e@)
            },
        }
    }
}

/// What the lines of an offset's block have given so far.
pub struct OffsetFields {
    pub tz_name: Option<String>,
    pub tz_offset_from: Option<String>,
    pub tz_offset_to: Option<String>,
    pub dt_start: Option<UtcDateTime>,
    pub rrule: Option<RRule>,
}

pub struct OffsetFieldsView {
    pub tz_name: Option<Seq<char>>,
    pub tz_offset_from: Option<Seq<char>>,
    pub tz_offset_to: Option<Seq<char>>,
    pub dt_start: Option<UtcDateTime>,
    pub rrule: Option<RRuleView>,
}

impl View for OffsetFields {
    type V = OffsetFieldsView;

    open spec fn view(&self) -> OffsetFieldsView {
        OffsetFieldsView {
            tz_name: text_view(self.tz_name),
            tz_offset_from: text_view(self.tz_offset_from),
            tz_offset_to: text_view(self.tz_offset_to),
            dt_start: self.dt_start,
            rrule: rule_view(self.rrule),
        }
    }
}

/// The tag of a line: what stands before its first `:`.
pub open spec fn tag_of(line: Seq<char>) -> Seq<char> {
    line.subrange(0, first_index_of(line, ':'))
}

/// What follows the first `:` of a line; nothing where it has none.
pub open spec fn value_after_tag(line: Seq<char>) -> Seq<char> {
    let i = first_index_of(line, ':');
    if 0 <= i < line.len() {
        line.subrange(i + 1, line.len() as int)
    } else {
        Seq::empty()
    }
}

/// What one line adds to the fields of an offset.
pub open spec fn offset_line(
    fields: OffsetFieldsView,
    line: Seq<char>,
    block: BlockView,
    local_offset: int,
) -> Result<OffsetFieldsView, VTimezoneOffsetParseErrorView> {
    let tag = tag_of(line);
    let value = value_after_tag(line);
    if tag == "TZNAME"@ {
        Ok(OffsetFieldsView { tz_name: Some(value), ..fields })
    } else if tag == "TZOFFSETFROM"@ {
        Ok(OffsetFieldsView { tz_offset_from: Some(value), ..fields })
    } else if tag == "TZOFFSETTO"@ {
        Ok(OffsetFieldsView { tz_offset_to: Some(value), ..fields })
    } else if tag == "DTSTART"@ {
        match parse_date_time_text(value) {
            Ok(t) => Ok(OffsetFieldsView { dt_start: Some(t.midnight()), ..fields }),
            Err(e) => Err(VTimezoneOffsetParseErrorView::InvalidStart(e)),
        }
    } else if tag == "RRULE"@ {
        match parse_rrule(value, local_offset) {
            Ok(rule) => Ok(OffsetFieldsView { rrule: Some(rule), ..fields }),
            Err(e) => Err(VTimezoneOffsetParseErrorView::InvalidRule(e)),
        }
    } else {
        Err(VTimezoneOffsetParseErrorView::UnsupportedTag { block, tag })
    }
}

/// What the first `k` lines give: each line adds to what the lines before it gave, and the
/// first line that fails is the error.
pub open spec fn offset_lines(
    lines: Seq<Seq<char>>,
    k: int,
    block: BlockView,
    local_offset: int,
) -> Result<OffsetFieldsView, VTimezoneOffsetParseErrorView>
    decreases k,
{
    if k <= 0 || k > lines.len() {
        Ok(
            OffsetFieldsView {
                tz_name: None,
                tz_offset_from: None,
                tz_offset_to: None,
                dt_start: None,
                rrule: None,
            },
        )
    } else {
        match offset_lines(lines, k - 1, block, local_offset) {
            Err(e) => Err(e),
            Ok(fields) => offset_line(fields, lines[k - 1], block, local_offset),
        }
    }
}

/// The offset that the fields make, or the first of name, offset before, offset after and
/// start that is missing.
pub open spec fn offset_of_fields(fields: OffsetFieldsView, block: BlockView) -> Result<
    VTimezoneOffsetView,
    VTimezoneOffsetParseErrorView,
> {
    match (fields.tz_name, fields.tz_offset_from, fields.tz_offset_to, fields.dt_start) {
        (None, _, _, _) => Err(
            VTimezoneOffsetParseErrorView::MissingMandatoryField { block, field: "TZNAME"@ },
        ),
        (_, None, _, _) => Err(
            VTimezoneOffsetParseErrorView::MissingMandatoryField { block, field: "TZOFFSETFROM"@ },
        ),
        (_, _, None, _) => Err(
            VTimezoneOffsetParseErrorView::MissingMandatoryField { block, field: "TZOFFSETTO"@ },
        ),
        (_, _, _, None) => Err(
            VTimezoneOffsetParseErrorView::MissingMandatoryField { block, field: "DTSTART"@ },
        ),
        (Some(tz_name), Some(tz_offset_from), Some(tz_offset_to), Some(dt_start)) => Ok(
            VTimezoneOffsetView {
                tz_name,
                tz_offset_from,
                tz_offset_to,
                dt_start,
                rrule: fields.rrule,
            },
        ),
    }
}

/// The offset that a block describes.
pub open spec fn parse_offset(block: BlockView, local_offset: int) -> Result<
    VTimezoneOffsetView,
    VTimezoneOffsetParseErrorView,
> {
    match offset_lines(block.inner_lines, block.inner_lines.len() as int, block, local_offset) {
        Err(e) => Err(e),
        Ok(fields) => offset_of_fields(fields, block),
    }
}

/// The offsets that the first `k` blocks describe, or the error of the first that fails.
pub open spec fn parse_offsets(blocks: Seq<BlockView>, k: int, local_offset: int) -> Result<
    Seq<VTimezoneOffsetView>,
    VTimezoneOffsetParseErrorView,
>
    decreases k,
{
    if k <= 0 || k > blocks.len() {
        Ok(Seq::empty())
    } else {
        match parse_offsets(blocks, k - 1, local_offset) {
            Err(e) => Err(e),
            Ok(offsets) => match parse_offset(blocks[k - 1], local_offset) {
                Err(e) => Err(e),
                Ok(offset) => Ok(offsets.push(offset)),
            },
        }
    }
}

/// The index of the first line that begins with `prefix`, or the number of lines.
pub open spec fn first_line_with(lines: Seq<Seq<char>>, prefix: Seq<char>, from: int) -> int
    decreases lines.len() - from,
{
    if from < 0 || from >= lines.len() {
        lines.len() as int
    } else if has_prefix(lines[from], prefix) {
        from
    } else {
        first_line_with(lines, prefix, from + 1)
    }
}

/// The time zone that a block describes: its name follows `TZID:` in the first line that
/// begins so, and every block in it is one of its offsets.
pub open spec fn parse_timezone(block: BlockView, local_offset: int) -> Result<
    VTimezoneView,
    VTimezoneParseErrorView,
> {
    let i = first_line_with(block.inner_lines, "TZID:"@, 0);
    if 0 <= i < block.inner_lines.len() {
        match parse_offsets(block.inner_blocks, block.inner_blocks.len() as int, local_offset) {
            Err(e) => Err(VTimezoneParseErrorView::VTimezoneOffsetParseError(e)),
            Ok(offsets) => Ok(
                VTimezoneView {
                    tz_id: block.inner_lines[i].subrange(
                        "TZID:"@.len() as int,
                        block.inner_lines[i].len() as int,
                    ),
                    offsets,
                },
            ),
        }
    } else {
        Err(VTimezoneParseErrorView::TZIDTagNotFound)
    }
}

pub open spec fn offset_fields_result_view(r: Result<OffsetFields, VTimezoneOffsetParseError>) -> Result<
    OffsetFieldsView,
    VTimezoneOffsetParseErrorView,
> {
    match r {
        Ok(fields) => Ok(fields@),
        Err(e) => Err(e@),
    }
}

pub open spec fn offset_result_view(r: Result<VTimezoneOffset, VTimezoneOffsetParseError>) -> Result<
    VTimezoneOffsetView,
    VTimezoneOffsetParseErrorView,
> {
    match r {
        Ok(offset) => Ok(offset@),
        Err(e) => Err(e@),
    }
}

pub open spec fn timezone_result_view(r: Result<VTimezone, VTimezoneParseError>) -> Result<
    VTimezoneView,
    VTimezoneParseErrorView,
> {
    match r {
        Ok(timezone) => Ok(timezone@),
        Err(e) => Err(e@),
    }
}

/// Adds what a line says to the fields of an offset.
pub fn read_offset_line(fields: OffsetFields, line: &str, block: &Block, local_offset: i32) -> (r:
    Result<OffsetFields, VTimezoneOffsetParseError>)
    ensures
        offset_fields_result_view(r) == offset_line(fields@, line@, block@, local_offset as int),
{
    let chars = chars_of(line);
    let n = chars.len();
    let colon = index_of(&chars, ':');
    let tag = Span { start: 0, end: colon };
    let value_span = if colon < n {
        Span { start: colon + 1, end: n }
    } else {
        Span { start: n, end: n }
    };
    assert(tag.of(chars@) =~= tag_of(line@));
    assert(value_span.of(chars@) =~= value_after_tag(line@));
    let mut fields = fields;
    if span_equals(&chars, tag, "TZNAME") {
        fields.tz_name = Some(span_to_string(line, value_span));
        Ok(fields)
    } else if span_equals(&chars, tag, "TZOFFSETFROM") {
        fields.tz_offset_from = Some(span_to_string(line, value_span));
        Ok(fields)
    } else if span_equals(&chars, tag, "TZOFFSETTO") {
        fields.tz_offset_to = Some(span_to_string(line, value_span));
        Ok(fields)
    } else if span_equals(&chars, tag, "DTSTART") {
        match read_date_time(&chars, value_span) {
            Ok(t) => {
                fields.dt_start = Some(t.at_midnight());
                Ok(fields)
            },
            Err(e) => Err(VTimezoneOffsetParseError::InvalidStart(e)),
        }
    } else if span_equals(&chars, tag, "RRULE") {
        let value = line.substring_char(value_span.start, value_span.end);
        match RRule::parse(value, local_offset) {
            Ok(rule) => {
                fields.rrule = Some(rule);
                Ok(fields)
            },
            Err(e) => Err(VTimezoneOffsetParseError::InvalidRule(e)),
        }
    } else {
        Err(
            VTimezoneOffsetParseError::UnsupportedTag {
                block: block.duplicate(),
                tag: span_to_string(line, tag),
            },
        )
    }
}

impl VTimezoneOffset {
    /// Reads an offset of a time zone from its block, line by line.
    ///
    /// `local_offset` is the number of seconds by which the local clock is ahead of UTC; it
    /// decides what an `UNTIL` without a `Z` means in the offset's rule.
    pub fn try_from(block: &Block, local_offset: i32) -> (r: Result<
        VTimezoneOffset,
        VTimezoneOffsetParseError,
    >)
        ensures
            offset_result_view(r) == parse_offset(block@, local_offset as int),
    {
        let mut fields = OffsetFields {
            tz_name: None,
            tz_offset_from: None,
            tz_offset_to: None,
            dt_start: None,
            rrule: None,
        };
        let ghost lines = block@.inner_lines;
        let mut i: usize = 0;
        while i < block.inner_lines.len()
            invariant
                lines == block@.inner_lines,
                lines == texts(block.inner_lines@),
                i <= block.inner_lines@.len(),
                offset_lines(lines, i as int, block@, local_offset as int) == Ok::<
                    OffsetFieldsView,
                    VTimezoneOffsetParseErrorView,
                >(fields@),
            decreases block.inner_lines@.len() - i,
        {
            assert(lines[i as int] == block.inner_lines@[i as int]@);
            match read_offset_line(fields, block.inner_lines[i].as_str(), block, local_offset) {
                Ok(next) => {
                    fields = next;
                },
                Err(e) => {
                    proof {
                        lemma_offset_lines_error_stays(
                            lines,
                            i + 1,
                            lines.len() as int,
                            block@,
                            local_offset as int,
                        );
                    }
                    return Err(e);
                },
            }
            i += 1;
        }
        let tz_name = match fields.tz_name {
            Some(tz_name) => tz_name,
            None => {
                return Err(
                    VTimezoneOffsetParseError::MissingMandatoryField {
                        block: block.duplicate(),
                        field: "TZNAME",
                    },
                );
            },
        };
        let tz_offset_from = match fields.tz_offset_from {
            Some(tz_offset_from) => tz_offset_from,
            None => {
                return Err(
                    VTimezoneOffsetParseError::MissingMandatoryField {
                        block: block.duplicate(),
                        field: "TZOFFSETFROM",
                    },
                );
            },
        };
        let tz_offset_to = match fields.tz_offset_to {
            Some(tz_offset_to) => tz_offset_to,
            None => {
                return Err(
                    VTimezoneOffsetParseError::MissingMandatoryField {
                        block: block.duplicate(),
                        field: "TZOFFSETTO",
                    },
                );
            },
        };
        let dt_start = match fields.dt_start {
            Some(dt_start) => dt_start,
            None => {
                return Err(
                    VTimezoneOffsetParseError::MissingMandatoryField {
                        block: block.duplicate(),
                        field: "DTSTART",
                    },
                );
            },
        };
        Ok(VTimezoneOffset { tz_name, tz_offset_from, tz_offset_to, dt_start, rrule: fields.rrule })
    }
}

/// Once a line has failed, the lines have failed.
pub proof fn lemma_offset_lines_error_stays(
    lines: Seq<Seq<char>>,
    k: int,
    n: int,
    block: BlockView,
    local_offset: int,
)
    requires
        1 <= k <= n <= lines.len(),
        offset_lines(lines, k, block, local_offset) is Err,
    ensures
        offset_lines(lines, n, block, local_offset) == offset_lines(lines, k, block, local_offset),
    decreases n - k,
{
    if k < n {
        lemma_offset_lines_error_stays(lines, k, n - 1, block, local_offset);
    }
}

/// Once a block has failed, the blocks have failed.
pub proof fn lemma_parse_offsets_error_stays(
    blocks: Seq<BlockView>,
    k: int,
    n: int,
    local_offset: int,
)
    requires
        1 <= k <= n <= blocks.len(),
        parse_offsets(blocks, k, local_offset) is Err,
    ensures
        parse_offsets(blocks, n, local_offset) == parse_offsets(blocks, k, local_offset),
    decreases n - k,
{
    if k < n {
        lemma_parse_offsets_error_stays(blocks, k, n - 1, local_offset);
    }
}

impl VTimezone {
    /// Reads a time zone from its block.
    pub fn try_from(block: &Block, local_offset: i32) -> (r: Result<VTimezone, VTimezoneParseError>)
        ensures
            timezone_result_view(r) == parse_timezone(block@, local_offset as int),
    {
        let ghost lines = block@.inner_lines;
        let mut i: usize = 0;
        let mut tz_id: Option<String> = None;
        while tz_id.is_none() && i < block.inner_lines.len()
            invariant
                lines == texts(block.inner_lines@),
                i <= block.inner_lines@.len(),
                tz_id is None ==> first_line_with(lines, "TZID:"@, 0) == first_line_with(
                    lines,
                    "TZID:"@,
                    i as int,
                ),
                tz_id matches Some(id) ==> {
                    let k = first_line_with(lines, "TZID:"@, 0);
                    0 <= k < lines.len() && id@ == lines[k].subrange(
                        "TZID:"@.len() as int,
                        lines[k].len() as int,
                    )
                },
            decreases
                    block.inner_lines@.len() - i,
                    (if tz_id is None {
                        1int
                    } else {
                        0int
                    }),
        {
            let line = block.inner_lines[i].as_str();
            assert(lines[i as int] == line@);
            let chars = chars_of(line);
            let whole = Span { start: 0, end: chars.len() };
            assert(whole.of(chars@) =~= line@);
            if span_has_prefix(&chars, whole, "TZID:") {
                let rest = Span { start: "TZID:".unicode_len(), end: chars.len() };
                assert(rest.of(chars@) =~= line@.subrange("TZID:"@.len() as int, line@.len() as int));
                tz_id = Some(span_to_string(line, rest));
            } else {
                i += 1;
            }
        }
        let tz_id = match tz_id {
            Some(tz_id) => tz_id,
            None => {
                return Err(VTimezoneParseError::TZIDTagNotFound);
            },
        };
        let ghost blocks = block@.inner_blocks;
        let ghost found = first_line_with(lines, "TZID:"@, 0);
        let mut offsets: Vec<VTimezoneOffset> = Vec::new();
        let mut k: usize = 0;
        assert(offset_views(offsets@) =~= Seq::<VTimezoneOffsetView>::empty());
        while k < block.inner_blocks.len()
            invariant
                lines == block@.inner_lines,
                found == first_line_with(lines, "TZID:"@, 0),
                0 <= found < lines.len(),
                blocks == block@.inner_blocks,
                blocks.len() == block.inner_blocks@.len(),
                forall|j: int| 0 <= j < blocks.len() ==> blocks[j] == (#[trigger] block.inner_blocks@[j])@,
                k <= block.inner_blocks@.len(),
                parse_offsets(blocks, k as int, local_offset as int) == Ok::<
                    Seq<VTimezoneOffsetView>,
                    VTimezoneOffsetParseErrorView,
                >(offset_views(offsets@)),
            decreases block.inner_blocks@.len() - k,
        {
            match VTimezoneOffset::try_from(&block.inner_blocks[k], local_offset) {
                Ok(offset) => {
                    proof {
                        assert(offset_views(offsets@.push(offset)) =~= offset_views(offsets@).push(
                            offset@,
                        ));
                    }
                    offsets.push(offset);
                },
                Err(e) => {
                    proof {
                        lemma_parse_offsets_error_stays(
                            blocks,
                            k + 1,
                            blocks.len() as int,
                            local_offset as int,
                        );
                    }
                    return Err(VTimezoneParseError::VTimezoneOffsetParseError(e));
                },
            }
            k += 1;
        }
        Ok(VTimezone { tz_id, offsets })
    }
}

} // verus!
