use vstd::prelude::*;

use crate::text::{
    chars_of, parse_signed, pieces, read_signed, span_to_string, split_on, split_spans, Span,
};
use crate::weekday::Weekday;

verus! {

#[derive(Debug, Clone, PartialEq, Eq)]
pub enum ByDayParseError {
    /// The text that should have been one of the seven weekday codes.
    InvalidWeekday { w: String },
    /// The number before the weekday code is no 32-bit integer.
    InvalidDelta,
}

pub enum ByDayParseErrorView {
    InvalidWeekday { w: Seq<char> },
    InvalidDelta,
}

impl View for ByDayParseError {
    type V = ByDayParseErrorView;

    open spec fn view(&self) -> ByDayParseErrorView {
        match self {
            ByDayParseError::InvalidWeekday { w } => ByDayParseErrorView::InvalidWeekday { w: w@ },
            ByDayParseError::InvalidDelta => ByDayParseErrorView::InvalidDelta,
        }
    }
}

/// A weekday counted within a month: the `delta`-th from the start, or for a negative
/// `delta` from the end.
#[derive(Debug, Clone, Copy, PartialEq, Eq, Hash, Structural)]
pub struct Delta {
    pub delta: i32,
    pub weekday: Weekday,
}

impl Delta {
    pub fn new(delta: i32, weekday: Weekday) -> (r: Self)
        ensures
            r == (Delta { delta, weekday }),
    {
        Self { delta, weekday }
    }
}

/// Which weekdays: any of a list, or one weekday counted within a month.
#[derive(Debug, Clone, PartialEq, Eq, Hash)]
pub enum ByDay {
    Simple(Vec<Weekday>),
    Delta(Delta),
}

pub enum ByDayView {
    Simple(Seq<Weekday>),
    Delta(Delta),
}

impl View for ByDay {
    type V = ByDayView;

    open spec fn view(&self) -> ByDayView {
        match self {
            ByDay::Simple(weekdays) => ByDayView::Simple(weekdays@),
            ByDay::Delta(delta) => ByDayView::Delta(*delta),
        }
    }
}

impl ByDayView {
    /// The weekdays that the selector names: those of the list, or the one that is counted.
    pub open spec fn weekdays(self) -> Seq<Weekday> {
        match self {
            ByDayView::Simple(weekdays) => weekdays,
            ByDayView::Delta(delta) => seq![delta.weekday],
        }
    }
}

/// The weekday that a two-letter code stands for.
pub open spec fn weekday_of_code(s: Seq<char>) -> Option<Weekday> {
    if s.len() != 2 {
        None
    } else if s[0] == 'S' && s[1] == 'U' {
        Some(Weekday::Sun)
    } else if s[0] == 'M' && s[1] == 'O' {
        Some(Weekday::Mon)
    } else if s[0] == 'T' && s[1] == 'U' {
        Some(Weekday::Tue)
    } else if s[0] == 'W' && s[1] == 'E' {
        Some(Weekday::Wed)
    } else if s[0] == 'T' && s[1] == 'H' {
        Some(Weekday::Thu)
    } else if s[0] == 'F' && s[1] == 'R' {
        Some(Weekday::Fri)
    } else if s[0] == 'S' && s[1] == 'A' {
        Some(Weekday::Sat)
    } else {
        None
    }
}

/// A counted weekday: a signed number, then a weekday code in the last two characters.
/// A wrong code is reported before a wrong number.
pub open spec fn parse_delta(s: Seq<char>) -> Result<Delta, ByDayParseErrorView> {
    if s.len() < 2 {
        Err(ByDayParseErrorView::InvalidWeekday { w: s })
    } else {
        let code = s.subrange(s.len() - 2, s.len() as int);
        match weekday_of_code(code) {
            None => Err(ByDayParseErrorView::InvalidWeekday { w: code }),
            Some(weekday) => match parse_signed(
                s.subrange(0, s.len() - 2),
                0x8000_0000,
                0x7fff_ffff,
            ) {
                None => Err(ByDayParseErrorView::InvalidDelta),
                Some(delta) => Ok(Delta { delta: delta as i32, weekday }),
            },
        }
    }
}

/// The weekdays that a list of codes names, empty entries passed over. The first entry that
/// is neither empty nor a code is the error.
pub open spec fn parse_weekdays(tokens: Seq<Seq<char>>) -> Result<Seq<Weekday>, ByDayParseErrorView>
    decreases tokens.len(),
{
    if tokens.len() == 0 {
        Ok(Seq::empty())
    } else {
        match parse_weekdays(tokens.drop_last()) {
            Err(e) => Err(e),
            Ok(weekdays) => {
                let token = tokens.last();
                if token.len() == 0 {
                    Ok(weekdays)
                } else {
                    match weekday_of_code(token) {
                        None => Err(ByDayParseErrorView::InvalidWeekday { w: token }),
                        Some(weekday) => Ok(weekdays.push(weekday)),
                    }
                }
            },
        }
    }
}

/// What a weekday selector's text means. The text is a list with commas between its
/// entries. A first entry of more than two characters makes the whole a counted weekday,
/// read from that entry; else it is a list of weekday codes.
pub open spec fn parse_by_day(s: Seq<char>) -> Result<ByDayView, ByDayParseErrorView> {
    let tokens = split_on(s, ',');
    if tokens[0].len() > 2 {
        match parse_delta(tokens[0]) {
            Ok(delta) => Ok(ByDayView::Delta(delta)),
            Err(e) => Err(e),
        }
    } else {
        match parse_weekdays(tokens) {
            Ok(weekdays) => Ok(ByDayView::Simple(weekdays)),
            Err(e) => Err(e),
        }
    }
}

pub open spec fn delta_result_view(r: Result<Delta, ByDayParseError>) -> Result<
    Delta,
    ByDayParseErrorView,
> {
    match r {
        Ok(delta) => Ok(delta),
        Err(e) => Err(e@),
    }
}

pub open spec fn by_day_result_view(r: Result<ByDay, ByDayParseError>) -> Result<
    ByDayView,
    ByDayParseErrorView,
> {
    match r {
        Ok(by_day) => Ok(by_day@),
        Err(e) => Err(e@),
    }
}

/// Reads a two-letter weekday code.
pub fn read_weekday_code(chars: &Vec<char>, span: Span) -> (r: Option<Weekday>)
    requires
        span.within(chars@.len() as int),
    ensures
        r == weekday_of_code(span.of(chars@)),
{
    if span.end - span.start != 2 {
        return None;
    }
    let a = chars[span.start];
    let b = chars[span.start + 1];
    assert(span.of(chars@)[0] == a && span.of(chars@)[1] == b);
    if a == 'S' && b == 'U' {
        Some(Weekday::Sun)
    } else if a == 'M' && b == 'O' {
        Some(Weekday::Mon)
    } else if a == 'T' && b == 'U' {
        Some(Weekday::Tue)
    } else if a == 'W' && b == 'E' {
        Some(Weekday::Wed)
    } else if a == 'T' && b == 'H' {
        Some(Weekday::Thu)
    } else if a == 'F' && b == 'R' {
        Some(Weekday::Fri)
    } else if a == 'S' && b == 'A' {
        Some(Weekday::Sat)
    } else {
        None
    }
}

/// Reads a counted weekday from a part of a text.
pub fn read_delta(text: &str, chars: &Vec<char>, span: Span) -> (r: Result<Delta, ByDayParseError>)
    requires
        chars@ == text@,
        span.within(chars@.len() as int),
    ensures
        delta_result_view(r) == parse_delta(span.of(chars@)),
{
    let ghost s = span.of(chars@);
    if span.end - span.start < 2 {
        return Err(ByDayParseError::InvalidWeekday { w: span_to_string(text, span) });
    }
    let code = Span { start: span.end - 2, end: span.end };
    let number = Span { start: span.start, end: span.end - 2 };
    assert(code.of(chars@) =~= s.subrange(s.len() - 2, s.len() as int));
    assert(number.of(chars@) =~= s.subrange(0, s.len() - 2));
    match read_weekday_code(chars, code) {
        None => Err(ByDayParseError::InvalidWeekday { w: span_to_string(text, code) }),
        Some(weekday) => match read_signed(chars, number, 0x8000_0000, 0x7fff_ffff) {
            None => Err(ByDayParseError::InvalidDelta),
            Some(delta) => Ok(Delta { delta: delta as i32, weekday }),
        },
    }
}

impl Delta {
    /// Reads a counted weekday, such as `2FR` or `-1SU`.
    pub fn parse(s: &str) -> (r: Result<Delta, ByDayParseError>)
        ensures
            delta_result_view(r) == parse_delta(s@),
    {
        let chars = chars_of(s);
        let whole = Span { start: 0, end: chars.len() };
        assert(whole.of(chars@) =~= s@);
        read_delta(s, &chars, whole)
    }
}

impl ByDay {
    /// Reads a weekday selector, such as `MO,TU,FR` or `-1SU`.
    pub fn parse(s: &str) -> (r: Result<ByDay, ByDayParseError>)
        ensures
            by_day_result_view(r) == parse_by_day(s@),
    {
        let chars = chars_of(s);
        let whole = Span { start: 0, end: chars.len() };
        assert(whole.of(chars@) =~= s@);
        ByDay::read(s, &chars, whole)
    }

    /// Reads a weekday selector from a part of a text.
    pub fn read(text: &str, chars: &Vec<char>, span: Span) -> (r: Result<ByDay, ByDayParseError>)
        requires
            chars@ == text@,
            span.within(chars@.len() as int),
        ensures
            by_day_result_view(r) == parse_by_day(span.of(chars@)),
    {
        let tokens = split_spans(chars, span, ',');
        let ghost all = pieces(chars@, tokens@);
        assert(all[0] == tokens@[0].of(chars@));
        if tokens[0].end - tokens[0].start > 2 {
            return match read_delta(text, chars, tokens[0]) {
                Ok(delta) => Ok(ByDay::Delta(delta)),
                Err(e) => Err(e),
            };
        }
        let mut weekdays: Vec<Weekday> = Vec::new();
        let mut i: usize = 0;
        while i < tokens.len()
            invariant
                chars@ == text@,
                i <= tokens@.len(),
                all == pieces(chars@, tokens@),
                all == split_on(span.of(chars@), ','),
                all.len() >= 1,
                all[0].len() <= 2,
                forall|k: int|
                    0 <= k < tokens@.len() ==> (#[trigger] tokens@[k]).within(chars@.len() as int),
                parse_weekdays(all.subrange(0, i as int)) == Ok::<
                    Seq<Weekday>,
                    ByDayParseErrorView,
                >(weekdays@),
            decreases tokens@.len() - i,
        {
            let token = tokens[i];
            proof {
                let longer = all.subrange(0, i + 1);
                assert(longer.drop_last() =~= all.subrange(0, i as int));
                assert(longer.last() == token.of(chars@));
            }
            if token.end > token.start {
                match read_weekday_code(chars, token) {
                    Some(weekday) => {
                        weekdays.push(weekday);
                    },
                    None => {
                        proof {
                            let longer = all.subrange(0, i + 1);
                            assert(parse_weekdays(longer) == Err::<
                                Seq<Weekday>,
                                ByDayParseErrorView,
                            >(ByDayParseErrorView::InvalidWeekday { w: token.of(chars@) }));
                            lemma_parse_weekdays_error_stays(all, i + 1);
                        }
                        return Err(
                            ByDayParseError::InvalidWeekday { w: span_to_string(text, token) },
                        );
                    },
                }
            }
            i += 1;
        }
        assert(all.subrange(0, i as int) =~= all);
        Ok(ByDay::Simple(weekdays))
    }
}

/// An error among the first entries of a list is the error of the whole list.
pub proof fn lemma_parse_weekdays_error_stays(tokens: Seq<Seq<char>>, k: int)
    requires
        0 <= k <= tokens.len(),
        parse_weekdays(tokens.subrange(0, k)) is Err,
    ensures
        parse_weekdays(tokens) == parse_weekdays(tokens.subrange(0, k)),
    decreases tokens.len() - k,
{
    if k == tokens.len() {
        assert(tokens.subrange(0, k) =~= tokens);
    } else {
        let longer = tokens.subrange(0, k + 1);
        assert(longer.drop_last() =~= tokens.subrange(0, k));
        lemma_parse_weekdays_error_stays(tokens, k + 1);
    }
}

impl core::str::FromStr for ByDay {
    type Err = ByDayParseError;

    /// Reads a weekday selector, as [`ByDay::parse`] does.
    fn from_str(s: &str) -> (r: Result<Self, Self::Err>)
        ensures
            by_day_result_view(r) == parse_by_day(s@),
    {
        ByDay::parse(s)
    }
}

impl core::str::FromStr for Delta {
    type Err = ByDayParseError;

    /// Reads a counted weekday, as [`Delta::parse`] does.
    fn from_str(s: &str) -> (r: Result<Self, Self::Err>)
        ensures
            delta_result_view(r) == parse_delta(s@),
    {
        Delta::parse(s)
    }
}

} // verus!
