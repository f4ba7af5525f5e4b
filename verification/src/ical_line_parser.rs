use vstd::prelude::*;
use vstd::string::{StrSliceExecFns, StringExecFns};

use crate::text::{chars_of, pieces, Span};

verus! {

/// A cursor over the raw lines of a calendar text, which hands out the logical lines: a raw
/// line together with the lines after it that begin with a space and continue it.
#[derive(Debug, Clone)]
pub struct ICalLineParser<'a> {
    pub lines: &'a [&'a str],
    pub position: usize,
}

/// The texts of some raw lines.
pub open spec fn raw_texts(lines: Seq<&str>) -> Seq<Seq<char>> {
    Seq::new(lines.len(), |i: int| lines[i]@)
}

/// The line begins with a space, and so continues the line before it.
pub open spec fn continues(line: Seq<char>) -> bool {
    line.len() > 0 && line[0] == ' '
}

/// How many lines in a row, from `from` on, continue the line before them.
pub open spec fn continuations(lines: Seq<Seq<char>>, from: int) -> int
    decreases lines.len() - from,
{
    if 0 <= from < lines.len() && continues(lines[from]) {
        1 + continuations(lines, from + 1)
    } else {
        0
    }
}

/// The lines from `from` up to `to`, each without its first character, one after the other.
pub open spec fn joined(lines: Seq<Seq<char>>, from: int, to: int) -> Seq<char>
    decreases to - from,
{
    if from >= to || to > lines.len() || from < 0 {
        Seq::empty()
    } else {
        joined(lines, from, to - 1) + lines[to - 1].drop_first()
    }
}

/// The logical line that begins with the raw line at `position`.
pub open spec fn logical_line(lines: Seq<Seq<char>>, position: int) -> Seq<char> {
    lines[position] + joined(
        lines,
        position + 1,
        position + 1 + continuations(lines, position + 1),
    )
}

/// The logical lines from the raw line at `position` on.
pub open spec fn logical_lines(lines: Seq<Seq<char>>, position: int) -> Seq<Seq<char>>
    decreases lines.len() - position,
{
    if position < 0 || position >= lines.len() {
        Seq::empty()
    } else {
        proof {
            lemma_continuations_bounds(lines, position + 1);
        }
        seq![logical_line(lines, position)] + logical_lines(
            lines,
            position + 1 + continuations(lines, position + 1),
        )
    }
}

pub proof fn lemma_continuations_bounds(lines: Seq<Seq<char>>, from: int)
    ensures
        0 <= continuations(lines, from),
        0 <= from <= lines.len() ==> from + continuations(lines, from) <= lines.len(),
    decreases lines.len() - from,
{
    if 0 <= from < lines.len() && continues(lines[from]) {
        lemma_continuations_bounds(lines, from + 1);
    }
}

/// A line break, a carriage return with a line feed after it, begins at `j`.
pub open spec fn line_break_at(s: Seq<char>, j: int) -> bool {
    0 <= j && j + 1 < s.len() && s[j] == '\r' && s[j + 1] == '\n'
}

/// The index of the first line break, a carriage return with a line feed after it, or the
/// length of the text where there is none.
pub open spec fn first_line_break(s: Seq<char>) -> int
    decreases s.len(),
{
    if s.len() < 2 {
        s.len() as int
    } else if s[0] == '\r' && s[1] == '\n' {
        0
    } else {
        1 + first_line_break(s.drop_first())
    }
}

/// The raw lines of a text: the pieces between its line breaks.
pub open spec fn split_lines(s: Seq<char>) -> Seq<Seq<char>>
    decreases s.len(),
{
    let i = first_line_break(s);
    if 0 <= i && i + 2 <= s.len() {
        seq![s.subrange(0, i)] + split_lines(s.subrange(i + 2, s.len() as int))
    } else {
        seq![s]
    }
}

/// The first line break is at the one place that has it with none beginning before it.
pub proof fn lemma_first_line_break_is(s: Seq<char>, k: int)
    requires
        0 <= k,
        k + 2 <= s.len() ==> s[k] == '\r' && s[k + 1] == '\n',
        k + 2 > s.len() ==> k == s.len(),
        forall|j: int| 0 <= j < k ==> !line_break_at(s, j),
    ensures
        first_line_break(s) == k,
    decreases s.len(),
{
    if s.len() >= 2 && k > 0 {
        let rest = s.drop_first();
        assert forall|j: int| 0 <= j < k - 1 implies !line_break_at(rest, j) by {
            if j + 1 < rest.len() {
                assert(rest[j] == s[j + 1] && rest[j + 1] == s[j + 2]);
            }
            assert(!line_break_at(s, j + 1));
        }
        if k - 1 + 2 <= rest.len() {
            assert(rest[k - 1] == s[k] && rest[k] == s[k + 1]);
        }
        assert(!line_break_at(s, 0));
        lemma_first_line_break_is(rest, k - 1);
    }
}

/// Splits a text at its line breaks and gives the ranges of the raw lines.
pub fn split_line_spans(chars: &Vec<char>) -> (r: Vec<Span>)
    ensures
        pieces(chars@, r@) == split_lines(chars@),
        r@.len() >= 1,
        forall|i: int| 0 <= i < r@.len() ==> (#[trigger] r@[i]).within(chars@.len() as int),
{
    let mut out: Vec<Span> = Vec::new();
    let mut start: usize = 0;
    let mut i: usize = 0;
    let n = chars.len();
    let ghost s = chars@;
    assert(s.subrange(0, n as int) =~= s);
    assert(pieces(s, out@) + split_lines(s) =~= split_lines(s));
    while i < n
        invariant
            s == chars@,
            n == s.len(),
            start <= i <= n,
            forall|j: int| start <= j < i ==> !line_break_at(s, j),
            split_lines(s) == pieces(s, out@) + split_lines(s.subrange(start as int, n as int)),
            forall|k: int| 0 <= k < out@.len() ==> (#[trigger] out@[k]).within(s.len() as int),
        decreases n - i,
    {
        if chars[i] == '\r' && i + 1 < n && chars[i + 1] == '\n' {
            proof {
                let rest = s.subrange(start as int, n as int);
                let k = i - start;
                assert forall|j: int| 0 <= j < k implies !line_break_at(rest, j) by {
                    if j + 1 < rest.len() {
                        assert(rest[j] == s[start + j] && rest[j + 1] == s[start + j + 1]);
                    }
                    assert(!line_break_at(s, start + j));
                }
                assert(rest[k] == s[i as int] && rest[k + 1] == s[i + 1]);
                lemma_first_line_break_is(rest, k);
                assert(rest.subrange(0, k) =~= s.subrange(start as int, i as int));
                assert(rest.subrange(k + 2, rest.len() as int) =~= s.subrange(i + 2, n as int));
                let piece = Span { start, end: i };
                assert(pieces(s, out@.push(piece)) =~= pieces(s, out@) + seq![piece.of(s)]);
                assert(pieces(s, out@) + (seq![piece.of(s)] + split_lines(
                    s.subrange(i + 2, n as int),
                )) =~= (pieces(s, out@) + seq![piece.of(s)]) + split_lines(
                    s.subrange(i + 2, n as int),
                ));
            }
            out.push(Span { start, end: i });
            start = i + 2;
            i += 2;
        } else {
            i += 1;
        }
    }
    proof {
        let rest = s.subrange(start as int, n as int);
        assert forall|j: int| 0 <= j < rest.len() implies !line_break_at(rest, j) by {
            if j + 1 < rest.len() {
                assert(rest[j] == s[start + j] && rest[j + 1] == s[start + j + 1]);
            }
            assert(!line_break_at(s, start + j));
        }
        lemma_first_line_break_is(rest, rest.len() as int);
        let piece = Span { start, end: n };
        assert(pieces(s, out@.push(piece)) =~= pieces(s, out@) + seq![piece.of(s)]);
    }
    out.push(Span { start, end: n });
    out
}

/// The raw lines of a text.
pub fn raw_lines(text: &str) -> (r: Vec<&str>)
    ensures
        raw_texts(r@) == split_lines(text@),
{
    let chars = chars_of(text);
    let spans = split_line_spans(&chars);
    let mut out: Vec<&str> = Vec::new();
    let mut i: usize = 0;
    while i < spans.len()
        invariant
            chars@ == text@,
            i <= spans@.len(),
            out@.len() == i,
            forall|k: int| 0 <= k < spans@.len() ==> (#[trigger] spans@[k]).within(chars@.len() as int),
            forall|k: int| 0 <= k < i ==> (#[trigger] out@[k])@ == spans@[k].of(chars@),
        decreases spans@.len() - i,
    {
        out.push(text.substring_char(spans[i].start, spans[i].end));
        i += 1;
    }
    assert(raw_texts(out@) =~= pieces(chars@, spans@));
    out
}

impl<'a> ICalLineParser<'a> {
    pub fn new(lines: &'a [&'a str]) -> (r: Self)
        ensures
            r.lines == lines,
            r.position == 0,
    {
        Self { lines, position: 0 }
    }

    /// Hands out the next logical line and moves past its raw lines; `None`, and no move,
    /// where no raw line is left.
    pub fn next(&mut self) -> (r: Option<String>)
        ensures
            final(self).lines == old(self).lines,
            old(self).position < old(self).lines@.len() ==> {
                &&& r matches Some(line) && line@ == logical_line(
                    raw_texts(old(self).lines@),
                    old(self).position as int,
                )
                &&& final(self).position == old(self).position + 1 + continuations(
                    raw_texts(old(self).lines@),
                    old(self).position + 1,
                )
            },
            old(self).position >= old(self).lines@.len() ==> r is None && final(self).position
                == old(self).position,
    {
        let n = self.lines.len();
        if self.position >= n {
            return None;
        }
        let ghost all = raw_texts(self.lines@);
        let ghost first = self.position as int;
        assert(all[first] == self.lines@[first]@);
        let mut s: String = self.lines[self.position].to_owned();
        let mut count: usize = 1;
        let mut more = true;
        assert(joined(all, first + 1, first + 1) =~= Seq::<char>::empty());
        assert(s@ =~= all[first] + joined(all, first + 1, first + 1));
        while more && self.position + count < n
            invariant
                all == raw_texts(self.lines@),
                n == self.lines@.len(),
                first == self.position,
                self.lines == old(self).lines,
                1 <= count,
                first + count <= n,
                s@ == all[first] + joined(all, first + 1, first + count),
                continuations(all, first + 1) == count - 1 + continuations(all, first + count),
                !more ==> continuations(all, first + count) == 0,
            decreases
                    n - count,
                    (if more {
                        1int
                    } else {
                        0int
                    }),
        {
            let line = self.lines[self.position + count];
            assert(all[first + count] == line@);
            let len = line.unicode_len();
            if len > 0 && line.get_char(0) == ' ' {
                let stripped = line.substring_char(1, len);
                assert(stripped@ =~= line@.drop_first());
                s.append(stripped);
                count += 1;
                assert(s@ =~= all[first] + joined(all, first + 1, first + count));
            } else {
                more = false;
            }
        }
        self.position += count;
        Some(s)
    }
}

/// The logical lines of some raw lines.
pub fn unfold_lines(lines: &[&str]) -> (r: Vec<String>)
    ensures
        crate::block::texts(r@) == logical_lines(raw_texts(lines@), 0),
{
    let mut parser = ICalLineParser::new(lines);
    let mut out: Vec<String> = Vec::new();
    let ghost all = raw_texts(lines@);
    loop
        invariant
            parser.lines == lines,
            all == raw_texts(lines@),
            parser.position <= lines@.len(),
            logical_lines(all, 0) == crate::block::texts(out@) + logical_lines(
                all,
                parser.position as int,
            ),
        decreases lines@.len() - parser.position,
    {
        proof {
            lemma_continuations_bounds(all, parser.position + 1);
        }
        match parser.next() {
            None => {
                assert(crate::block::texts(out@) + Seq::<Seq<char>>::empty() =~= crate::block::texts(
                    out@,
                ));
                return out;
            },
            Some(line) => {
                proof {
                    assert(crate::block::texts(out@.push(line)) =~= crate::block::texts(out@)
                        + seq![line@]);
                    let rest = logical_lines(all, parser.position as int);
                    assert(crate::block::texts(out@) + (seq![line@] + rest) =~= (
                    crate::block::texts(out@) + seq![line@]) + rest);
                }
                out.push(line);
            },
        }
    }
}

} // verus!
