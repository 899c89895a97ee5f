//! Records as clients upload them: a text with a header line and one
//! record on every other line, its key before the first comma and its value
//! behind it.

use crate::data::{Data, DataView};
use vstd::prelude::*;

verus! {

/// `String::push`: appends one character.
pub assume_specification[ String::push ](s: &mut String, c: char)
    ensures
        final(s)@ == old(s)@.push(c),
;

/// Whether a character has the Unicode property `White_Space`: the
/// controls from tab to carriage return, the space, next line, the
/// no-break spaces, and the spaces and separators of the general
/// punctuation block.
pub open spec fn white_space(c: char) -> bool {
    let code = c as u32;
    ||| 0x0009 <= code <= 0x000D
    ||| code == 0x0020
    ||| code == 0x0085
    ||| code == 0x00A0
    ||| code == 0x1680
    ||| 0x2000 <= code <= 0x200A
    ||| code == 0x2028
    ||| code == 0x2029
    ||| code == 0x202F
    ||| code == 0x205F
    ||| code == 0x3000
}

/// `char::is_whitespace`: whether the character has the Unicode property
/// `White_Space`.
pub assume_specification[ char::is_whitespace ](c: char) -> (r: bool)
    ensures
        r == white_space(c),
;

/// The first position at `from` or behind it that holds `mark`, or the
/// length of the text where there is none.
pub open spec fn next_mark(text: Seq<char>, mark: char, from: int) -> int
    decreases text.len() - from,
{
    if from < 0 || from >= text.len() {
        text.len() as int
    } else if text[from] == mark {
        from
    } else {
        next_mark(text, mark, from + 1)
    }
}

/// The lines of the text from position `from` on. A line ends before a
/// line feed or at the end of the text; a line feed at the very end starts
/// no further line.
pub open spec fn lines_from(text: Seq<char>, from: int) -> Seq<Seq<char>>
    decreases text.len() - from,
{
    if from < 0 || from >= text.len() {
        Seq::empty()
    } else {
        let end = next_mark(text, '\n', from);
        proof {
            lemma_mark_is_ahead(text, '\n', from);
        }
        if end < text.len() {
            seq![text.subrange(from, end)] + lines_from(text, end + 1)
        } else {
            seq![text.subrange(from, end)]
        }
    }
}

/// A mark is found at the place where the search starts or behind it, and
/// within the text.
pub proof fn lemma_mark_is_ahead(text: Seq<char>, mark: char, from: int)
    requires
        0 <= from <= text.len(),
    ensures
        from <= next_mark(text, mark, from) <= text.len(),
    decreases text.len() - from,
{
    if from < text.len() && text[from] != mark {
        lemma_mark_is_ahead(text, mark, from + 1);
    }
}

/// The text without the white space at its two ends.
pub open spec fn trimmed(text: Seq<char>) -> Seq<char>
    decreases text.len(),
{
    if text.len() > 0 && white_space(text[0]) {
        trimmed(text.drop_first())
    } else if text.len() > 0 && white_space(text.last()) {
        trimmed(text.drop_last())
    } else {
        text
    }
}

/// The record on a line: the key is what stands before the first comma,
/// the value what stands behind it, both without the white space around
/// them. A line without a comma is a key with an empty value.
pub open spec fn record_of(line: Seq<char>) -> DataView {
    let comma = next_mark(line, ',', 0);
    DataView {
        key: trimmed(line.subrange(0, comma)),
        value: if comma < line.len() {
            trimmed(line.subrange(comma + 1, line.len() as int))
        } else {
            Seq::empty()
        },
    }
}

/// The records of the lines behind the first, which is a header.
pub open spec fn records_behind_header(lines: Seq<Seq<char>>) -> Seq<DataView> {
    Seq::new(
        if lines.len() > 0 {
            (lines.len() - 1) as nat
        } else {
            0
        },
        |i: int| record_of(lines[i + 1]),
    )
}

/// The records that an uploaded text holds.
pub open spec fn records_of(text: Seq<char>) -> Seq<DataView> {
    records_behind_header(lines_from(text, 0))
}

/// The characters of a text.
fn to_chars(text: &str) -> (chars: Vec<char>)
    ensures
        chars@ == text@,
{
    let mut chars: Vec<char> = Vec::new();
    for c in it: text.chars()
        invariant
            chars@ == it.seq().take(it.index() as int),
    {
        chars.push(c);
    }
    chars
}

/// The first position in `from..to` that holds `mark`, or `to`.
fn find(chars: &Vec<char>, mark: char, from: usize, to: usize) -> (at: usize)
    requires
        from <= to <= chars@.len(),
    ensures
        from <= at <= to,
        at == next_mark(chars@.subrange(0, to as int), mark, from as int),
{
    let ghost text = chars@.subrange(0, to as int);
    let mut at: usize = from;
    while at < to && chars[at] != mark
        invariant
            from <= at <= to <= chars@.len(),
            text == chars@.subrange(0, to as int),
            next_mark(text, mark, from as int) == next_mark(text, mark, at as int),
        decreases to - at,
    {
        assert(text[at as int] == chars@[at as int]);
        at += 1;
    }
    proof {
        if at < to {
            assert(text[at as int] == chars@[at as int]);
        }
    }
    at
}

/// The characters in `from..to` without the white space at the two ends,
/// as a text.
fn trim(chars: &Vec<char>, from: usize, to: usize) -> (text: String)
    requires
        from <= to <= chars@.len(),
    ensures
        text@ == trimmed(chars@.subrange(from as int, to as int)),
{
    let mut lo: usize = from;
    while lo < to && chars[lo].is_whitespace()
        invariant
            from <= lo <= to <= chars@.len(),
            trimmed(chars@.subrange(from as int, to as int)) == trimmed(
                chars@.subrange(lo as int, to as int),
            ),
        decreases to - lo,
    {
        assert(chars@.subrange(lo as int, to as int).drop_first() =~= chars@.subrange(
            lo + 1,
            to as int,
        ));
        lo += 1;
    }
    let mut hi: usize = to;
    while hi > lo && chars[hi - 1].is_whitespace()
        invariant
            lo <= hi <= to <= chars@.len(),
            lo < to ==> !white_space(chars@[lo as int]),
            trimmed(chars@.subrange(from as int, to as int)) == trimmed(
                chars@.subrange(lo as int, hi as int),
            ),
        decreases hi - lo,
    {
        assert(chars@.subrange(lo as int, hi as int).drop_last() =~= chars@.subrange(
            lo as int,
            hi - 1,
        ));
        hi -= 1;
    }
    let mut text = String::new();
    let mut i: usize = lo;
    while i < hi
        invariant
            lo <= i <= hi <= chars@.len(),
            text@ == chars@.subrange(lo as int, i as int),
        decreases hi - i,
    {
        text.push(chars[i]);
        assert(chars@.subrange(lo as int, i + 1) =~= chars@.subrange(lo as int, i as int).push(
            chars@[i as int],
        ));
        i += 1;
    }
    text
}

/// The record on the line in `from..to`.
fn parse_line(chars: &Vec<char>, from: usize, to: usize) -> (record: Data)
    requires
        from <= to <= chars@.len(),
    ensures
        record@ == record_of(chars@.subrange(from as int, to as int)),
{
    let ghost line = chars@.subrange(from as int, to as int);
    let comma = find(chars, ',', from, to);
    proof {
        lemma_mark_in_part(chars@.subrange(0, to as int), ',', from as int, from as int);
        assert(chars@.subrange(0, to as int).subrange(from as int, to as int) =~= line);
        assert(line.subrange(0, comma - from) =~= chars@.subrange(from as int, comma as int));
    }
    let key = trim(chars, from, comma);
    let value = if comma < to {
        assert(line.subrange(comma - from + 1, line.len() as int) =~= chars@.subrange(
            comma + 1,
            to as int,
        ));
        trim(chars, comma + 1, to)
    } else {
        String::new()
    };
    Data { key, value }
}

/// Looking for a mark in the part of a text from `start` on finds it at
/// the same place as looking in the whole text from there.
proof fn lemma_mark_in_part(text: Seq<char>, mark: char, start: int, from: int)
    requires
        0 <= start <= from <= text.len(),
    ensures
        next_mark(text.subrange(start, text.len() as int), mark, from - start) == next_mark(
            text,
            mark,
            from,
        ) - start,
    decreases text.len() - from,
{
    let part = text.subrange(start, text.len() as int);
    if from < text.len() {
        assert(part[from - start] == text[from]);
        if text[from] != mark {
            lemma_mark_in_part(text, mark, start, from + 1);
        }
    }
}

/// The records of an uploaded text.
pub fn parse_records(csv_data: &str) -> (records: Vec<Data>)
    ensures
        records.deep_view() == records_of(csv_data@),
{
    let chars = to_chars(csv_data);
    let len = chars.len();
    let ghost text = chars@;
    let ghost mut seen: Seq<Seq<char>> = Seq::empty();
    let mut records: Vec<Data> = Vec::new();
    let mut header = true;
    let mut start: usize = 0;
    assert(records.deep_view() =~= records_behind_header(seen));
    while start < len
        invariant
            start <= len,
            len == chars@.len(),
            text == chars@,
            lines_from(text, 0) == seen + lines_from(text, start as int),
            header == (seen.len() == 0),
            records.deep_view() == records_behind_header(seen),
        decreases len - start,
    {
        let end = find(&chars, '\n', start, len);
        proof {
            assert(text.subrange(0, len as int) =~= text);
        }
        let ghost line = text.subrange(start as int, end as int);
        let ghost before = records.deep_view();
        if header {
            header = false;
        } else {
            let record = parse_line(&chars, start, end);
            records.push(record);
            assert(records.deep_view() =~= before.push(record_of(line)));
        }
        proof {
            assert(seen + (seq![line] + lines_from(text, end + 1)) =~= seen.push(line)
                + lines_from(text, end + 1));
            assert(records.deep_view() =~= records_behind_header(seen.push(line)));
            seen = seen.push(line);
        }
        start = if end < len {
            end + 1
        } else {
            len
        };
    }
    assert(seen + lines_from(text, start as int) =~= seen);
    records
}

} // verus!
