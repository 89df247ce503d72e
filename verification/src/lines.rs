//! A document as a sequence of lines.
//!
//! A text is cut at every newline character and nowhere else, so a text with
//! `n` newlines has `n + 1` lines, the last of which is empty when the text
//! ends in a newline. Joining puts one newline between neighbours. The two
//! are inverse to each other: nothing but the newlines is consumed, and a
//! carriage return stays in its line.

use crate::text::append_chars;
use vstd::prelude::*;

verus! {

/// The character that ends a line.
pub open spec fn newline() -> char {
    '\n'
}

/// Whether `line` is free of newlines.
pub open spec fn is_line(line: Seq<char>) -> bool {
    forall|i: int| 0 <= i < line.len() ==> line[i] != newline()
}

/// Whether every element of `lines` is free of newlines.
pub open spec fn are_lines(lines: Seq<Seq<char>>) -> bool {
    forall|i: int| 0 <= i < lines.len() ==> is_line(#[trigger] lines[i])
}

/// The position of the first newline of `text`, or its length if it has
/// none.
pub open spec fn line_end(text: Seq<char>) -> int
    decreases text.len(),
{
    if text.len() == 0 || text[0] == newline() {
        0
    } else {
        1 + line_end(text.skip(1))
    }
}

/// The lines of `text`: its first line, and then the lines of what follows
/// the first newline.
pub open spec fn split_lines(text: Seq<char>) -> Seq<Seq<char>>
    decreases text.len(),
{
    let end = line_end(text);
    if 0 <= end < text.len() {
        seq![text.take(end)] + split_lines(text.skip(end + 1))
    } else {
        seq![text]
    }
}

/// The text whose lines are `lines`: the lines in order, with one newline
/// between each two neighbours.
pub open spec fn join_lines(lines: Seq<Seq<char>>) -> Seq<char>
    decreases lines.len(),
{
    if lines.len() == 0 {
        Seq::empty()
    } else if lines.len() == 1 {
        lines[0]
    } else {
        lines[0] + seq![newline()] + join_lines(lines.skip(1))
    }
}

/// The views of the elements of `lines`.
pub open spec fn lines_view(lines: Seq<Vec<char>>) -> Seq<Seq<char>> {
    lines.map_values(|line: Vec<char>| line@)
}

/// `line_end` is where the first newline stands: no newline comes before it,
/// and it is either the end of the text or a newline.
pub proof fn lemma_line_end(text: Seq<char>)
    ensures
        0 <= line_end(text) <= text.len(),
        is_line(text.take(line_end(text))),
        line_end(text) < text.len() ==> text[line_end(text)] == newline(),
    decreases text.len(),
{
    if text.len() == 0 || text[0] == newline() {
    } else {
        let rest = text.skip(1);
        lemma_line_end(rest);
        let end = line_end(text);
        assert forall|i: int| 0 <= i < end implies text.take(end)[i] != newline() by {
            if i > 0 {
                assert(rest.take(end - 1)[i - 1] == text[i]);
            }
        }
    }
}

/// A position with no newline before it, which is the end of the text or a
/// newline, is `line_end`.
pub proof fn lemma_line_end_is(text: Seq<char>, end: int)
    requires
        0 <= end <= text.len(),
        is_line(text.take(end)),
        end < text.len() ==> text[end] == newline(),
    ensures
        line_end(text) == end,
{
    lemma_line_end(text);
    let found = line_end(text);
    if found < end {
        assert(text.take(end)[found] == newline());
    } else if end < found {
        assert(text.take(found)[end] == newline());
    }
}

/// A text without a newline is its own single line.
pub proof fn lemma_split_line(line: Seq<char>)
    requires
        is_line(line),
    ensures
        split_lines(line) == seq![line],
{
    assert(line.take(line.len() as int) == line);
    lemma_line_end_is(line, line.len() as int);
}

/// A text has at least one line, and no line holds a newline.
pub proof fn lemma_split_gives_lines(text: Seq<char>)
    ensures
        split_lines(text).len() >= 1,
        are_lines(split_lines(text)),
    decreases text.len(),
{
    lemma_line_end(text);
    let end = line_end(text);
    if end < text.len() {
        let rest = split_lines(text.skip(end + 1));
        lemma_split_gives_lines(text.skip(end + 1));
        let all = seq![text.take(end)] + rest;
        assert forall|i: int| 0 <= i < all.len() implies is_line(#[trigger] all[i]) by {
            if i > 0 {
                assert(all[i] == rest[i - 1]);
            }
        }
    } else {
        assert(text.take(end) == text);
    }
}

/// Joining the lines of a text gives the text back.
pub proof fn lemma_join_split(text: Seq<char>)
    ensures
        join_lines(split_lines(text)) == text,
    decreases text.len(),
{
    lemma_line_end(text);
    let end = line_end(text);
    if end < text.len() {
        let tail = text.skip(end + 1);
        let rest = split_lines(tail);
        lemma_join_split(tail);
        lemma_split_gives_lines(tail);
        let all = seq![text.take(end)] + rest;
        assert(all.skip(1) == rest);
        assert(all[0] == text.take(end));
        assert(text.take(end) + seq![newline()] + tail == text);
    }
}

/// Splitting a text that was joined from lines gives the lines back.
pub proof fn lemma_split_join(lines: Seq<Seq<char>>)
    requires
        lines.len() >= 1,
        are_lines(lines),
    ensures
        split_lines(join_lines(lines)) == lines,
    decreases lines.len(),
{
    if lines.len() == 1 {
        lemma_split_line(lines[0]);
        assert(lines == seq![lines[0]]);
    } else {
        let first = lines[0];
        let rest = lines.skip(1);
        let text = join_lines(lines);
        assert(is_line(first));
        assert forall|i: int| 0 <= i < rest.len() implies is_line(#[trigger] rest[i]) by {
            assert(rest[i] == lines[i + 1]);
        }
        lemma_split_join(rest);
        assert(text.take(first.len() as int) == first);
        assert(text[first.len() as int] == newline());
        lemma_line_end_is(text, first.len() as int);
        assert(text.skip(first.len() as int + 1) == join_lines(rest));
        assert(seq![first] + rest == lines);
    }
}

/// Joining one more line appends a newline and that line.
pub proof fn lemma_join_push(lines: Seq<Seq<char>>, last: Seq<char>)
    requires
        lines.len() >= 1,
    ensures
        join_lines(lines.push(last)) == join_lines(lines) + seq![newline()] + last,
    decreases lines.len(),
{
    let all = lines.push(last);
    if lines.len() == 1 {
        assert(all.skip(1) == seq![last]);
        assert(join_lines(all.skip(1)) == last);
    } else {
        lemma_join_push(lines.skip(1), last);
        assert(all.skip(1) == lines.skip(1).push(last));
    }
}

/// Cuts `text` into its lines.
pub fn split(text: &Vec<char>) -> (lines: Vec<Vec<char>>)
    ensures
        lines_view(lines@) == split_lines(text@),
{
    let mut lines: Vec<Vec<char>> = Vec::new();
    let mut line: Vec<char> = Vec::new();
    let ghost mut start: int = 0;
    let mut i: usize = 0;
    proof {
        assert(text@.skip(0) == text@);
        assert(lines_view(lines@) + split_lines(text@) == split_lines(text@));
    }
    while i < text.len()
        invariant
            0 <= start <= i <= text.len(),
            line@ == text@.subrange(start, i as int),
            is_line(line@),
            split_lines(text@) == lines_view(lines@) + split_lines(text@.skip(start)),
        decreases text.len() - i,
    {
        let c = text[i];
        if c == '\n' {
            proof {
                let rest = text@.skip(start);
                assert(rest.take(i - start) == line@);
                lemma_line_end_is(rest, i - start);
                assert(rest.skip(i - start + 1) == text@.skip(i + 1));
                assert(lines_view(lines@.push(line)) == lines_view(lines@).push(line@));
                start = i + 1;
            }
            lines.push(line);
            line = Vec::new();
        } else {
            line.push(c);
        }
        i += 1;
    }
    proof {
        assert(text@.skip(start) == line@);
        lemma_split_line(line@);
        assert(lines_view(lines@.push(line)) == lines_view(lines@).push(line@));
    }
    lines.push(line);
    lines
}

/// Puts `lines` together into one text, with a newline between each two.
pub fn join(lines: &Vec<Vec<char>>) -> (text: Vec<char>)
    ensures
        text@ == join_lines(lines_view(lines@)),
{
    let ghost all = lines_view(lines@);
    let mut text: Vec<char> = Vec::new();
    let mut i: usize = 0;
    while i < lines.len()
        invariant
            i <= lines.len(),
            all == lines_view(lines@),
            text@ == join_lines(all.take(i as int)),
        decreases lines.len() - i,
    {
        if i > 0 {
            text.push('\n');
        }
        append_chars(&mut text, &lines[i]);
        proof {
            assert(all.take(i + 1) == all.take(i as int).push(all[i as int]));
            if i > 0 {
                lemma_join_push(all.take(i as int), all[i as int]);
            }
        }
        i += 1;
    }
    assert(all.take(lines.len() as int) == all);
    text
}

} // verus!
