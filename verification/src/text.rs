use vstd::prelude::*;
use vstd::string::StrSliceExecFns;

verus! {

/// The index of the first `c` in `s`, or the length of `s` where there is none.
pub open spec fn first_index_of(s: Seq<char>, c: char) -> int
    decreases s.len(),
{
    if s.len() == 0 {
        0
    } else if s[0] == c {
        0
    } else {
        1 + first_index_of(s.drop_first(), c)
    }
}

/// The pieces of `s` between the occurrences of `sep`: one more piece than there are
/// separators, empty pieces included.
pub open spec fn split_on(s: Seq<char>, sep: char) -> Seq<Seq<char>>
    decreases s.len(),
{
    let i = first_index_of(s, sep);
    if 0 <= i < s.len() {
        seq![s.subrange(0, i)] + split_on(s.subrange(i + 1, s.len() as int), sep)
    } else {
        seq![s]
    }
}

/// `s` begins with `prefix`.
pub open spec fn has_prefix(s: Seq<char>, prefix: Seq<char>) -> bool {
    prefix.len() <= s.len() && s.subrange(0, prefix.len() as int) == prefix
}

/// A range of positions in a text: from `start` up to, not including, `end`.
#[derive(Debug, Clone, Copy, PartialEq, Eq, Structural)]
pub struct Span {
    pub start: usize,
    pub end: usize,
}

impl Span {
    pub open spec fn within(self, len: int) -> bool {
        self.start <= self.end <= len
    }

    /// The characters of `s` in this range.
    pub open spec fn of(self, s: Seq<char>) -> Seq<char> {
        s.subrange(self.start as int, self.end as int)
    }

    pub fn len(&self) -> (r: usize)
        requires
            self.start <= self.end,
        ensures
            r == self.end - self.start,
    {
        self.end - self.start
    }
}

/// The pieces of `s` that the ranges pick, in order.
pub open spec fn pieces(s: Seq<char>, spans: Seq<Span>) -> Seq<Seq<char>> {
    Seq::new(spans.len(), |i: int| spans[i].of(s))
}

pub proof fn lemma_first_index_of(s: Seq<char>, c: char)
    ensures
        0 <= first_index_of(s, c) <= s.len(),
        first_index_of(s, c) < s.len() ==> s[first_index_of(s, c)] == c,
        forall|j: int| 0 <= j < first_index_of(s, c) ==> s[j] != c,
    decreases s.len(),
{
    if s.len() > 0 && s[0] != c {
        lemma_first_index_of(s.drop_first(), c);
        let k = first_index_of(s.drop_first(), c);
        assert forall|j: int| 0 <= j < first_index_of(s, c) implies s[j] != c by {
            if j > 0 {
                assert(s.drop_first()[j - 1] == s[j]);
            }
        }
    }
}

/// The first index is the one position that holds `c` with no `c` before it.
pub proof fn lemma_first_index_is(s: Seq<char>, c: char, k: int)
    requires
        0 <= k <= s.len(),
        forall|j: int| 0 <= j < k ==> s[j] != c,
        k < s.len() ==> s[k] == c,
    ensures
        first_index_of(s, c) == k,
{
    lemma_first_index_of(s, c);
}

/// Finds the first `c` in a text.
pub fn index_of(chars: &Vec<char>, c: char) -> (r: usize)
    ensures
        r == first_index_of(chars@, c),
        r <= chars@.len(),
{
    let mut i: usize = 0;
    while i < chars.len()
        invariant
            i <= chars@.len(),
            forall|j: int| 0 <= j < i ==> chars@[j] != c,
        decreases chars@.len() - i,
    {
        if chars[i] == c {
            proof {
                lemma_first_index_is(chars@, c, i as int);
            }
            return i;
        }
        i += 1;
    }
    proof {
        lemma_first_index_is(chars@, c, i as int);
    }
    i
}

/// The characters of a text, as a vector.
pub fn chars_of(s: &str) -> (v: Vec<char>)
    ensures
        v@ == s@,
{
    let mut v: Vec<char> = Vec::new();
    for c in it: s.chars()
        invariant
            it.seq() == s@,
            v@ == it.seq().subrange(0, it.index()),
    {
        v.push(c);
        assert(v@ =~= it.seq().subrange(0, it.index() + 1));
    }
    assert(s@.subrange(0, s@.len() as int) =~= s@);
    v
}

/// Splits a text at each `sep` and gives the ranges of the pieces.
pub fn split_spans(chars: &Vec<char>, span: Span, sep: char) -> (r: Vec<Span>)
    requires
        span.within(chars@.len() as int),
    ensures
        pieces(chars@, r@) == split_on(span.of(chars@), sep),
        r@.len() >= 1,
        forall|i: int| 0 <= i < r@.len() ==> (#[trigger] r@[i]).within(chars@.len() as int),
        forall|i: int|
            0 <= i < r@.len() ==> span.start <= (#[trigger] r@[i]).start && r@[i].end <= span.end,
{
    let mut out: Vec<Span> = Vec::new();
    let mut start: usize = span.start;
    let mut i: usize = span.start;
    let ghost s = chars@;
    let ghost whole = span.of(chars@);
    while i < span.end
        invariant
            s == chars@,
            whole == span.of(s),
            span.within(s.len() as int),
            span.start <= start <= i <= span.end,
            forall|j: int| start <= j < i ==> s[j] != sep,
            split_on(whole, sep) == pieces(s, out@) + split_on(
                s.subrange(start as int, span.end as int),
                sep,
            ),
            forall|k: int| 0 <= k < out@.len() ==> (#[trigger] out@[k]).within(s.len() as int),
            forall|k: int|
                0 <= k < out@.len() ==> span.start <= (#[trigger] out@[k]).start && out@[k].end
                    <= span.end,
        decreases span.end - i,
    {
        if chars[i] == sep {
            proof {
                let rest = s.subrange(start as int, span.end as int);
                let k = i - start;
                assert forall|j: int| 0 <= j < k implies rest[j] != sep by {
                    assert(rest[j] == s[start + j]);
                }
                assert(rest[k] == s[i as int]);
                lemma_first_index_is(rest, sep, k);
                assert(rest.subrange(0, k) =~= s.subrange(start as int, i as int));
                assert(rest.subrange(k + 1, rest.len() as int) =~= s.subrange(
                    i + 1,
                    span.end as int,
                ));
                let piece = Span { start, end: i };
                assert(pieces(s, out@.push(piece)) =~= pieces(s, out@) + seq![piece.of(s)]);
                assert(split_on(rest, sep) == seq![rest.subrange(0, k)] + split_on(
                    rest.subrange(k + 1, rest.len() as int),
                    sep,
                ));
                assert(pieces(s, out@) + (seq![piece.of(s)] + split_on(
                    s.subrange(i + 1, span.end as int),
                    sep,
                )) =~= (pieces(s, out@) + seq![piece.of(s)]) + split_on(
                    s.subrange(i + 1, span.end as int),
                    sep,
                ));
            }
            out.push(Span { start, end: i });
            start = i + 1;
        }
        i += 1;
    }
    proof {
        let rest = s.subrange(start as int, span.end as int);
        assert forall|j: int| 0 <= j < rest.len() implies rest[j] != sep by {
            assert(rest[j] == s[start + j]);
        }
        lemma_first_index_is(rest, sep, rest.len() as int);
        let piece = Span { start, end: span.end };
        assert(pieces(s, out@.push(piece)) =~= pieces(s, out@) + seq![piece.of(s)]);
        assert(split_on(rest, sep) == seq![rest]);
    }
    out.push(Span { start, end: span.end });
    out
}

/// Whether the characters in `span` begin with `prefix`.
pub fn span_has_prefix(chars: &Vec<char>, span: Span, prefix: &str) -> (r: bool)
    requires
        span.within(chars@.len() as int),
    ensures
        r == has_prefix(span.of(chars@), prefix@),
{
    let n = prefix.unicode_len();
    if n > span.end - span.start {
        return false;
    }
    let mut i: usize = 0;
    while i < n
        invariant
            span.within(chars@.len() as int),
            n == prefix@.len(),
            n <= span.end - span.start,
            i <= n,
            span.of(chars@).subrange(0, i as int) == prefix@.subrange(0, i as int),
        decreases n - i,
    {
        if chars[span.start + i] != prefix.get_char(i) {
            proof {
                let a = span.of(chars@).subrange(0, n as int);
                assert(a[i as int] == chars@[span.start + i]);
                assert(a[i as int] != prefix@[i as int]);
            }
            return false;
        }
        i += 1;
        proof {
            assert(span.of(chars@).subrange(0, i as int) =~= span.of(chars@).subrange(
                0,
                i - 1,
            ).push(chars@[span.start + i - 1]));
            assert(prefix@.subrange(0, i as int) =~= prefix@.subrange(0, i - 1).push(
                prefix@[i - 1],
            ));
        }
    }
    assert(prefix@.subrange(0, n as int) =~= prefix@);
    true
}

/// Whether the characters in `span` are exactly `word`.
pub fn span_equals(chars: &Vec<char>, span: Span, word: &str) -> (r: bool)
    requires
        span.within(chars@.len() as int),
    ensures
        r == (span.of(chars@) == word@),
{
    let n = word.unicode_len();
    if n != span.end - span.start {
        return false;
    }
    let r = span_has_prefix(chars, span, word);
    assert(span.of(chars@).subrange(0, n as int) =~= span.of(chars@));
    r
}

pub open spec fn is_digit(c: char) -> bool {
    '0' <= c <= '9'
}

pub open spec fn digit_value(c: char) -> int {
    c as int - '0' as int
}

pub open spec fn all_digits(s: Seq<char>) -> bool {
    forall|i: int| 0 <= i < s.len() ==> is_digit(#[trigger] s[i])
}

/// The number that a row of decimal digits writes.
pub open spec fn decimal_value(s: Seq<char>) -> int
    decreases s.len(),
{
    if s.len() == 0 {
        0
    } else {
        decimal_value(s.drop_last()) * 10 + digit_value(s.last())
    }
}

/// The number written by one or more decimal digits, where it is at most `max`.
pub open spec fn parse_digits(s: Seq<char>, max: int) -> Option<int> {
    if s.len() > 0 && all_digits(s) && decimal_value(s) <= max {
        Some(decimal_value(s))
    } else {
        None
    }
}

/// The number written by an optional `+` and one or more decimal digits, where it is at
/// most `max`.
pub open spec fn parse_unsigned(s: Seq<char>, max: int) -> Option<int> {
    if s.len() > 0 && s[0] == '+' {
        parse_digits(s.drop_first(), max)
    } else {
        parse_digits(s, max)
    }
}

/// The number written by an optional sign and one or more decimal digits, where it lies
/// from `-below_zero` to `max`.
pub open spec fn parse_signed(s: Seq<char>, below_zero: int, max: int) -> Option<int> {
    if s.len() > 0 && s[0] == '-' {
        match parse_digits(s.drop_first(), below_zero) {
            Some(v) => Some(-v),
            None => None,
        }
    } else {
        parse_unsigned(s, max)
    }
}

/// A longer row of digits writes no smaller a number than its beginning.
pub proof fn lemma_decimal_value_grows(s: Seq<char>, k: int)
    requires
        all_digits(s),
        0 <= k <= s.len(),
    ensures
        0 <= decimal_value(s.subrange(0, k)) <= decimal_value(s),
    decreases s.len() - k,
{
    if k == s.len() {
        assert(s.subrange(0, k) =~= s);
        lemma_decimal_value_nonnegative(s);
    } else {
        lemma_decimal_value_grows(s, k + 1);
        let longer = s.subrange(0, k + 1);
        assert(longer.drop_last() =~= s.subrange(0, k));
        assert(is_digit(s[k]));
        assert(longer.last() == s[k]);
        lemma_decimal_value_nonnegative(s.subrange(0, k));
    }
}

pub proof fn lemma_decimal_value_nonnegative(s: Seq<char>)
    requires
        all_digits(s),
    ensures
        0 <= decimal_value(s),
    decreases s.len(),
{
    if s.len() > 0 {
        assert(is_digit(s[s.len() - 1]));
        assert forall|i: int| 0 <= i < s.drop_last().len() implies is_digit(
            #[trigger] s.drop_last()[i],
        ) by {
            assert(s.drop_last()[i] == s[i]);
        }
        lemma_decimal_value_nonnegative(s.drop_last());
    }
}

/// Reads one or more decimal digits as a number of at most `max`.
pub fn read_digits(chars: &Vec<char>, span: Span, max: u64) -> (r: Option<u64>)
    requires
        span.within(chars@.len() as int),
        max <= u64::MAX / 16,
    ensures
        r matches Some(v) ==> parse_digits(span.of(chars@), max as int) == Some(v as int),
        r is None ==> parse_digits(span.of(chars@), max as int) is None,
{
    if span.start == span.end {
        return None;
    }
    let ghost s = span.of(chars@);
    let mut acc: u64 = 0;
    let mut i: usize = span.start;
    while i < span.end
        invariant
            span.within(chars@.len() as int),
            s == span.of(chars@),
            span.start <= i <= span.end,
            all_digits(s.subrange(0, i - span.start)),
            acc == decimal_value(s.subrange(0, i - span.start)),
            acc <= max,
            max <= u64::MAX / 16,
        decreases span.end - i,
    {
        let c = chars[i];
        if !(c >= '0' && c <= '9') {
            proof {
                assert(s[i - span.start] == c);
            }
            return None;
        }
        let d: u64 = (c as u32 - '0' as u32) as u64;
        let ghost before = s.subrange(0, i - span.start);
        let ghost longer = s.subrange(0, i - span.start + 1);
        proof {
            assert(longer.drop_last() =~= before);
            assert(longer.last() == c);
            assert forall|j: int| 0 <= j < longer.len() implies is_digit(#[trigger] longer[j]) by {
                if j < before.len() {
                    assert(before[j] == longer[j]);
                }
            }
        }
        if acc * 10 + d > max {
            proof {
                if all_digits(s) {
                    lemma_decimal_value_grows(s, i - span.start + 1);
                }
            }
            return None;
        }
        acc = acc * 10 + d;
        i += 1;
    }
    assert(s.subrange(0, s.len() as int) =~= s);
    Some(acc)
}

/// Reads an optional `+` and one or more decimal digits as a number of at most `max`.
pub fn read_unsigned(chars: &Vec<char>, span: Span, max: u64) -> (r: Option<u64>)
    requires
        span.within(chars@.len() as int),
        max <= u64::MAX / 16,
    ensures
        r matches Some(v) ==> parse_unsigned(span.of(chars@), max as int) == Some(v as int),
        r is None ==> parse_unsigned(span.of(chars@), max as int) is None,
{
    if span.start < span.end && chars[span.start] == '+' {
        let rest = Span { start: span.start + 1, end: span.end };
        assert(rest.of(chars@) =~= span.of(chars@).drop_first());
        read_digits(chars, rest, max)
    } else {
        read_digits(chars, span, max)
    }
}

/// Reads an optional sign and one or more decimal digits as a number from `-below_zero`
/// to `max`.
pub fn read_signed(chars: &Vec<char>, span: Span, below_zero: u64, max: u64) -> (r: Option<i64>)
    requires
        span.within(chars@.len() as int),
        max <= i64::MAX / 16,
        below_zero <= i64::MAX / 16,
    ensures
        r matches Some(v) ==> parse_signed(span.of(chars@), below_zero as int, max as int)
            == Some(v as int),
        r is None ==> parse_signed(span.of(chars@), below_zero as int, max as int) is None,
{
    if span.start < span.end && chars[span.start] == '-' {
        let rest = Span { start: span.start + 1, end: span.end };
        assert(rest.of(chars@) =~= span.of(chars@).drop_first());
        match read_digits(chars, rest, below_zero) {
            Some(v) => Some(-(v as i64)),
            None => None,
        }
    } else {
        match read_unsigned(chars, span, max) {
            Some(v) => Some(v as i64),
            None => None,
        }
    }
}

/// The view of a text that may be there.
pub open spec fn text_view(text: Option<String>) -> Option<Seq<char>> {
    match text {
        Some(text) => Some(text@),
        None => None,
    }
}

/// The text in `span`, as a `String` of its own.
pub fn span_to_string(text: &str, span: Span) -> (r: String)
    requires
        span.within(text@.len() as int),
    ensures
        r@ == span.of(text@),
{
    text.substring_char(span.start, span.end).to_owned()
}

} // verus!
