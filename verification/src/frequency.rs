use vstd::prelude::*;

use crate::text::{chars_of, span_equals, Span};

verus! {

/// How often a recurring event repeats.
#[derive(Debug, Clone, Copy, PartialEq, Eq, PartialOrd, Ord, Hash, Structural)]
pub enum Frequency {
    Yearly,
    Monthly,
    Weekly,
    Daily,
}

#[derive(Debug, Clone, PartialEq, Eq)]
pub enum FrequencyParseError {
    /// The text that should have been one of the four frequency words.
    UnrecognizedFrequency { freq: String },
}

pub enum FrequencyParseErrorView {
    UnrecognizedFrequency { freq: Seq<char> },
}

impl View for FrequencyParseError {
    type V = FrequencyParseErrorView;

    open spec fn view(&self) -> FrequencyParseErrorView {
        match self {
            FrequencyParseError::UnrecognizedFrequency { freq } => {
                FrequencyParseErrorView::UnrecognizedFrequency { freq: freq@ }
            },
        }
    }
}

/// The frequency that a word names: `YEARLY`, `MONTHLY`, `WEEKLY` or `DAILY`.
pub open spec fn parse_frequency(s: Seq<char>) -> Result<Frequency, FrequencyParseErrorView> {
    if s == "YEARLY"@ {
        Ok(Frequency::Yearly)
    } else if s == "MONTHLY"@ {
        Ok(Frequency::Monthly)
    } else if s == "WEEKLY"@ {
        Ok(Frequency::Weekly)
    } else if s == "DAILY"@ {
        Ok(Frequency::Daily)
    } else {
        Err(FrequencyParseErrorView::UnrecognizedFrequency { freq: s })
    }
}

pub open spec fn frequency_result_view(r: Result<Frequency, FrequencyParseError>) -> Result<
    Frequency,
    FrequencyParseErrorView,
> {
    match r {
        Ok(frequency) => Ok(frequency),
        Err(e) => Err(e@),
    }
}

/// Reads a frequency word from a part of a text.
pub fn read_frequency(text: &str, chars: &Vec<char>, span: Span) -> (r: Result<
    Frequency,
    FrequencyParseError,
>)
    requires
        chars@ == text@,
        span.within(chars@.len() as int),
    ensures
        frequency_result_view(r) == parse_frequency(span.of(chars@)),
{
    if span_equals(chars, span, "YEARLY") {
        Ok(Frequency::Yearly)
    } else if span_equals(chars, span, "MONTHLY") {
        Ok(Frequency::Monthly)
    } else if span_equals(chars, span, "WEEKLY") {
        Ok(Frequency::Weekly)
    } else if span_equals(chars, span, "DAILY") {
        Ok(Frequency::Daily)
    } else {
        Err(
            FrequencyParseError::UnrecognizedFrequency {
                freq: crate::text::span_to_string(text, span),
            },
        )
    }
}

impl Frequency {
    /// Reads a frequency word.
    pub fn parse(s: &str) -> (r: Result<Frequency, FrequencyParseError>)
        ensures
            frequency_result_view(r) == parse_frequency(s@),
    {
        let chars = chars_of(s);
        let whole = Span { start: 0, end: chars.len() };
        assert(whole.of(chars@) =~= s@);
        read_frequency(s, &chars, whole)
    }
}

impl core::str::FromStr for Frequency {
    type Err = FrequencyParseError;

    /// Reads a frequency word, as [`Frequency::parse`] does.
    fn from_str(s: &str) -> (r: Result<Self, Self::Err>)
        ensures
            frequency_result_view(r) == parse_frequency(s@),
    {
        Frequency::parse(s)
    }
}

} // verus!
