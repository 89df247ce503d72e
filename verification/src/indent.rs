//! Rescaling the indentation of a serialized document.
//!
//! A serializer writes its output with two spaces for each level of nesting.
//! To render that output at another width, the run of spaces at the start of
//! every line is counted, multiplied by the ratio of the wanted width to two,
//! and written again in the wanted character. The product is rounded down:
//! a run of three spaces at width three becomes four spaces, not five. What
//! follows the run is kept as it is; only spaces count as indentation, so a
//! line that starts with a tab has a run of length zero.

use crate::lines::{is_line, join, join_lines, lines_view, split, split_lines};
use crate::text::{chars_of, string_of};
use vstd::prelude::*;

verus! {

/// The width, in spaces, of one level of nesting in what a serializer writes.
pub const CANONICAL_WIDTH: usize = 2;

/// The character that indentation is written in.
#[derive(Debug, Clone, Copy, PartialEq, Eq, Structural, PartialOrd, Ord)]
pub enum IndentStyle {
    Space,
    Tab,
}

impl IndentStyle {
    /// The character that this style writes.
    pub open spec fn glyph_spec(self) -> char {
        match self {
            IndentStyle::Space => ' ',
            IndentStyle::Tab => '\t',
        }
    }

    /// The character that this style writes.
    #[verifier::when_used_as_spec(glyph_spec)]
    pub fn glyph(self) -> (c: char)
        ensures
            c == self.glyph_spec(),
    {
        match self {
            IndentStyle::Space => ' ',
            IndentStyle::Tab => '\t',
        }
    }
}

/// A factor by which runs of indentation are multiplied: the exact ratio of
/// two whole numbers, of which the second is not zero.
#[derive(Debug, Clone, Copy)]
pub struct ScaleFactor {
    numer: usize,
    denom: usize,
}

impl ScaleFactor {
    #[verifier::type_invariant]
    spec fn well_formed(self) -> bool {
        self.denom > 0
    }

    /// The number above the line.
    pub closed spec fn numer(self) -> nat {
        self.numer as nat
    }

    /// The number below the line.
    pub closed spec fn denom(self) -> nat {
        self.denom as nat
    }

    /// Whether this is a number at all: the denominator is not zero. Every
    /// factor that a program holds is.
    pub open spec fn is_valid(self) -> bool {
        self.denom() > 0
    }

    /// Whether this is the factor one, which leaves every length as it is.
    pub open spec fn is_one(self) -> bool {
        self.numer() == self.denom()
    }

    /// The factor that takes the canonical width to `width`.
    pub closed spec fn for_width(width: usize) -> ScaleFactor {
        ScaleFactor { numer: width, denom: CANONICAL_WIDTH }
    }

    /// The length of a run of `len` after scaling: the product, rounded down.
    pub open spec fn scale(self, len: nat) -> nat {
        (len * self.numer()) / self.denom()
    }

    /// The factor for a width is the ratio of that width to the canonical
    /// one.
    pub proof fn lemma_for_width(width: usize)
        ensures
            ScaleFactor::for_width(width).numer() == width,
            ScaleFactor::for_width(width).denom() == CANONICAL_WIDTH,
            ScaleFactor::for_width(width).is_valid(),
    {
    }

    /// The ratio of `numer` to `denom`, or nothing if `denom` is zero.
    pub fn new(numer: usize, denom: usize) -> (factor: Option<ScaleFactor>)
        ensures
            denom == 0 <==> factor is None,
            factor matches Some(f) ==> f.numer() == numer && f.denom() == denom,
    {
        if denom == 0 {
            None
        } else {
            Some(ScaleFactor { numer, denom })
        }
    }

    /// The factor that takes the canonical width to `width`.
    pub fn of_width(width: usize) -> (factor: ScaleFactor)
        ensures
            factor == ScaleFactor::for_width(width),
    {
        ScaleFactor { numer: width, denom: CANONICAL_WIDTH }
    }
}

/// The length of the run of spaces that `line` starts with.
pub open spec fn leading_spaces(line: Seq<char>) -> nat
    decreases line.len(),
{
    if line.len() > 0 && line[0] == ' ' {
        1 + leading_spaces(line.skip(1))
    } else {
        0
    }
}

/// A run of `count` characters of `style`.
pub open spec fn indent_run(style: IndentStyle, count: nat) -> Seq<char> {
    Seq::new(count, |i: int| style.glyph())
}

/// `line` with its leading run of spaces scaled by `factor` and written in
/// `style`; the rest of the line is kept.
pub open spec fn rescaled_line(line: Seq<char>, factor: ScaleFactor, style: IndentStyle) -> Seq<
    char,
> {
    indent_run(style, factor.scale(leading_spaces(line))) + line.skip(leading_spaces(line) as int)
}

/// `doc` with every line rescaled from the canonical width to `width`.
pub open spec fn reindented(doc: Seq<char>, width: usize, style: IndentStyle) -> Seq<char> {
    join_lines(
        split_lines(doc).map_values(
            |line: Seq<char>| rescaled_line(line, ScaleFactor::for_width(width), style),
        ),
    )
}

/// The leading run of a line ends within the line, holds only spaces, and is
/// not followed by a space.
pub proof fn lemma_leading_spaces(line: Seq<char>)
    ensures
        leading_spaces(line) <= line.len(),
        forall|i: int| 0 <= i < leading_spaces(line) ==> line[i] == ' ',
        leading_spaces(line) < line.len() ==> line[leading_spaces(line) as int] != ' ',
    decreases line.len(),
{
    if line.len() > 0 && line[0] == ' ' {
        let rest = line.skip(1);
        lemma_leading_spaces(rest);
        assert forall|i: int| 0 <= i < leading_spaces(line) implies line[i] == ' ' by {
            if i > 0 {
                assert(rest[i - 1] == line[i]);
            }
        }
    }
}

/// A run of spaces at the start of a line that no space follows is the
/// leading run.
pub proof fn lemma_leading_spaces_is(line: Seq<char>, len: nat)
    requires
        len <= line.len(),
        forall|i: int| 0 <= i < len ==> line[i] == ' ',
        len < line.len() ==> line[len as int] != ' ',
    ensures
        leading_spaces(line) == len,
    decreases line.len(),
{
    if line.len() > 0 && line[0] == ' ' {
        let rest = line.skip(1);
        assert forall|i: int| 0 <= i < len - 1 implies rest[i] == ' ' by {
            assert(rest[i] == line[i + 1]);
        }
        lemma_leading_spaces_is(rest, (len - 1) as nat);
    }
}

/// `line` with its leading run of spaces scaled by `factor` and written in
/// `style`.
pub fn rescale(line: &Vec<char>, factor: ScaleFactor, style: IndentStyle) -> (out: Vec<char>)
    ensures
        out@ == rescaled_line(line@, factor, style),
{
    proof {
        use_type_invariant(&factor);
    }
    let mut len: usize = 0;
    while len < line.len() && line[len] == ' '
        invariant
            len <= line.len(),
            forall|i: int| 0 <= i < len ==> line@[i] == ' ',
        decreases line.len() - len,
    {
        len += 1;
    }
    proof {
        lemma_leading_spaces_is(line@, len as nat);
    }
    assert(len * factor.numer <= u128::MAX) by (nonlinear_arith)
        requires
            len <= 0xffff_ffff_ffff_ffff,
            factor.numer <= 0xffff_ffff_ffff_ffff,
    ;
    let count: u128 = (len as u128) * (factor.numer as u128) / (factor.denom as u128);
    let glyph = style.glyph();
    let mut out: Vec<char> = Vec::new();
    let mut written: u128 = 0;
    while written < count
        invariant
            written <= count,
            glyph == style.glyph(),
            out@ == indent_run(style, written as nat),
        decreases count - written,
    {
        out.push(glyph);
        written += 1;
    }
    let mut i: usize = len;
    while i < line.len()
        invariant
            len <= i <= line.len(),
            out@ == indent_run(style, count as nat) + line@.subrange(len as int, i as int),
        decreases line.len() - i,
    {
        out.push(line[i]);
        i += 1;
    }
    assert(line@.subrange(len as int, line.len() as int) == line@.skip(len as int));
    out
}

/// Rescales the indentation of one line.
///
/// The run of spaces at the start of `s` is counted, its length is
/// multiplied by `coeff` and rounded down, and that many characters of
/// `style` take the place of the run. With spaces and a factor of one the
/// line is handed back as it is.
pub fn format_indentation(s: &str, coeff: ScaleFactor, style: IndentStyle) -> (out: String)
    ensures
        out@ == rescaled_line(s@, coeff, style),
{
    if style == IndentStyle::Space && coeff.numer == coeff.denom {
        proof {
            use_type_invariant(&coeff);
            lemma_rescale_identity(s@, coeff);
        }
        return s.to_owned();
    }
    let line = chars_of(s);
    let shaped = rescale(&line, coeff, style);
    string_of(&shaped)
}

/// Rescales every line of `lines`.
pub fn rescale_lines(lines: &Vec<Vec<char>>, factor: ScaleFactor, style: IndentStyle) -> (out: Vec<
    Vec<char>,
>)
    ensures
        lines_view(out@) == lines_view(lines@).map_values(
            |line: Seq<char>| rescaled_line(line, factor, style),
        ),
{
    let ghost shape = |line: Seq<char>| rescaled_line(line, factor, style);
    let mut out: Vec<Vec<char>> = Vec::new();
    let mut i: usize = 0;
    while i < lines.len()
        invariant
            i <= lines.len(),
            shape == |line: Seq<char>| rescaled_line(line, factor, style),
            lines_view(out@) == lines_view(lines@).take(i as int).map_values(shape),
        decreases lines.len() - i,
    {
        let shaped = rescale(&lines[i], factor, style);
        proof {
            let before = lines_view(lines@).take(i as int);
            let next = lines_view(lines@)[i as int];
            assert(lines_view(lines@).take(i + 1) == before.push(next));
            assert(before.push(next).map_values(shape) == before.map_values(shape).push(
                shape(next),
            ));
            assert(lines_view(out@.push(shaped)) == lines_view(out@).push(shaped@));
        }
        out.push(shaped);
        i += 1;
    }
    assert(lines_view(lines@).take(lines.len() as int) == lines_view(lines@));
    out
}

/// Renders a serialized document at another indentation.
///
/// `input` is taken to be indented with two spaces for each level. It is cut
/// into lines at its newlines, the indentation of each line is scaled by
/// `indent / 2` and written in `style`, and the lines are joined with
/// newlines again. Every line is treated alike, whatever it belongs to.
pub fn format_file(input: &str, indent: usize, style: IndentStyle) -> (out: String)
    ensures
        out@ == reindented(input@, indent, style),
{
    let text = chars_of(input);
    let lines = split(&text);
    let shaped = rescale_lines(&lines, ScaleFactor::of_width(indent), style);
    let joined = join(&shaped);
    string_of(&joined)
}

/// Scaling by one and writing spaces changes nothing, whatever the text
/// holds.
pub proof fn lemma_rescale_identity(line: Seq<char>, factor: ScaleFactor)
    requires
        factor.is_valid(),
        factor.is_one(),
    ensures
        rescaled_line(line, factor, IndentStyle::Space) == line,
{
    let len = leading_spaces(line);
    lemma_leading_spaces(line);
    assert((len * factor.numer()) / factor.denom() == len) by (nonlinear_arith)
        requires
            factor.numer() == factor.denom(),
            factor.denom() > 0,
    ;
    assert(indent_run(IndentStyle::Space, len) == line.take(len as int));
    assert(line.take(len as int) + line.skip(len as int) == line);
}

/// A document rendered at the canonical width in spaces is the document
/// itself, character for character.
pub proof fn lemma_reindent_identity(doc: Seq<char>)
    ensures
        reindented(doc, CANONICAL_WIDTH, IndentStyle::Space) == doc,
{
    let factor = ScaleFactor::for_width(CANONICAL_WIDTH);
    let shape = |line: Seq<char>| rescaled_line(line, factor, IndentStyle::Space);
    let lines = split_lines(doc);
    assert forall|i: int| 0 <= i < lines.len() implies lines.map_values(shape)[i] == lines[i] by {
        lemma_rescale_identity(lines[i], factor);
    }
    assert(lines.map_values(shape) == lines);
    crate::lines::lemma_join_split(doc);
}

/// A line that does not start with a space is left as it is, whatever the
/// factor and the style.
pub proof fn lemma_unindented_line_unchanged(
    line: Seq<char>,
    factor: ScaleFactor,
    style: IndentStyle,
)
    requires
        factor.is_valid(),
        leading_spaces(line) == 0,
    ensures
        rescaled_line(line, factor, style) == line,
{
    assert((0 * factor.numer()) / factor.denom() == 0) by (nonlinear_arith)
        requires
            factor.denom() > 0,
    ;
    assert(indent_run(style, 0) + line.skip(0) == line);
}

/// Rescaling puts no newline into a line.
pub proof fn lemma_rescaled_is_line(line: Seq<char>, factor: ScaleFactor, style: IndentStyle)
    requires
        is_line(line),
    ensures
        is_line(rescaled_line(line, factor, style)),
{
    lemma_leading_spaces(line);
}

/// Rendering a document at another indentation keeps its lines apart: the
/// result has as many lines as the document, and each of them is the
/// rescaled line of the document at the same place.
pub proof fn lemma_reindent_lines(doc: Seq<char>, width: usize, style: IndentStyle)
    ensures
        split_lines(reindented(doc, width, style)) == split_lines(doc).map_values(
            |line: Seq<char>| rescaled_line(line, ScaleFactor::for_width(width), style),
        ),
        split_lines(reindented(doc, width, style)).len() == split_lines(doc).len(),
{
    let factor = ScaleFactor::for_width(width);
    let shape = |line: Seq<char>| rescaled_line(line, factor, style);
    let lines = split_lines(doc);
    let shaped = lines.map_values(shape);
    crate::lines::lemma_split_gives_lines(doc);
    assert forall|i: int| 0 <= i < shaped.len() implies is_line(#[trigger] shaped[i]) by {
        lemma_rescaled_is_line(lines[i], factor, style);
    }
    crate::lines::lemma_split_join(shaped);
}

/// In spaces, the leading run of a rescaled line is the scaled leading run
/// of the line, and what follows it is what followed it before.
pub proof fn lemma_rescaled_indent(line: Seq<char>, factor: ScaleFactor)
    requires
        factor.is_valid(),
    ensures
        leading_spaces(rescaled_line(line, factor, IndentStyle::Space)) == factor.scale(
            leading_spaces(line),
        ),
        rescaled_line(line, factor, IndentStyle::Space).skip(
            factor.scale(leading_spaces(line)) as int,
        ) == line.skip(leading_spaces(line) as int),
{
    let count = factor.scale(leading_spaces(line));
    let out = rescaled_line(line, factor, IndentStyle::Space);
    lemma_leading_spaces(line);
    lemma_leading_spaces_is(out, count);
    assert(out.skip(count as int) == line.skip(leading_spaces(line) as int));
}

/// At a width of `2 * k` in spaces every line is indented `k` times as far
/// as before: a line at depth `d`, which starts with `2 * d` spaces, then
/// starts with `d` times the new width. What follows the run is kept, and
/// the number of lines stays.
pub proof fn lemma_width_scaling(doc: Seq<char>, k: usize, width: usize)
    requires
        width == 2 * k,
    ensures
        split_lines(reindented(doc, width, IndentStyle::Space)).len() == split_lines(doc).len(),
        forall|i: int|
            #![trigger split_lines(doc)[i]]
            0 <= i < split_lines(doc).len() ==> {
                let before = split_lines(doc)[i];
                let after = split_lines(reindented(doc, width, IndentStyle::Space))[i];
                &&& leading_spaces(after) == k * leading_spaces(before)
                &&& after.skip(leading_spaces(after) as int) == before.skip(
                    leading_spaces(before) as int,
                )
                &&& leading_spaces(before) % 2 == 0 ==> leading_spaces(after) == (leading_spaces(
                    before,
                ) / 2) * width
            },
{
    let factor = ScaleFactor::for_width(width);
    lemma_reindent_lines(doc, width, IndentStyle::Space);
    assert forall|i: int|
        #![trigger split_lines(doc)[i]]
        0 <= i < split_lines(doc).len() implies {
        let before = split_lines(doc)[i];
        let after = split_lines(reindented(doc, width, IndentStyle::Space))[i];
        &&& leading_spaces(after) == k * leading_spaces(before)
        &&& after.skip(leading_spaces(after) as int) == before.skip(leading_spaces(before) as int)
        &&& leading_spaces(before) % 2 == 0 ==> leading_spaces(after) == (leading_spaces(before) / 2)
            * width
    } by {
        let before = split_lines(doc)[i];
        let len = leading_spaces(before);
        lemma_rescaled_indent(before, factor);
        assert((len * width) / 2 == k * len) by (nonlinear_arith)
            requires
                width == 2 * k,
        ;
        assert(len % 2 == 0 ==> k * len == (len / 2) * width) by (nonlinear_arith)
            requires
                width == 2 * k,
        ;
    }
}

/// At the canonical width in tabs every space of a leading run becomes one
/// tab: a line that starts with `n` spaces then starts with `n` tabs, and
/// goes on as before. The number of lines stays.
pub proof fn lemma_tab_style(doc: Seq<char>)
    ensures
        split_lines(reindented(doc, CANONICAL_WIDTH, IndentStyle::Tab)).len() == split_lines(
            doc,
        ).len(),
        forall|i: int|
            #![trigger split_lines(doc)[i]]
            0 <= i < split_lines(doc).len() ==> {
                let before = split_lines(doc)[i];
                let after = split_lines(reindented(doc, CANONICAL_WIDTH, IndentStyle::Tab))[i];
                &&& after.len() == before.len()
                &&& forall|j: int| 0 <= j < leading_spaces(before) ==> after[j] == '\t'
                &&& forall|j: int| leading_spaces(before) <= j < before.len() ==> after[j] == before[j]
            },
{
    lemma_reindent_lines(doc, CANONICAL_WIDTH, IndentStyle::Tab);
    assert forall|i: int|
        #![trigger split_lines(doc)[i]]
        0 <= i < split_lines(doc).len() implies {
        let before = split_lines(doc)[i];
        let after = split_lines(reindented(doc, CANONICAL_WIDTH, IndentStyle::Tab))[i];
        &&& after.len() == before.len()
        &&& forall|j: int| 0 <= j < leading_spaces(before) ==> after[j] == '\t'
        &&& forall|j: int| leading_spaces(before) <= j < before.len() ==> after[j] == before[j]
    } by {
        let before = split_lines(doc)[i];
        let len = leading_spaces(before);
        lemma_leading_spaces(before);
        assert((len * 2) / 2 == len);
    }
}

/// At a width of one in tabs every two spaces of a leading run become one
/// tab: a line at depth `d`, which starts with `2 * d` spaces, then starts
/// with `d` tabs, and goes on as before. The number of lines stays.
pub proof fn lemma_tab_per_level(doc: Seq<char>)
    ensures
        split_lines(reindented(doc, 1, IndentStyle::Tab)).len() == split_lines(doc).len(),
        forall|i: int|
            #![trigger split_lines(doc)[i]]
            0 <= i < split_lines(doc).len() ==> {
                let before = split_lines(doc)[i];
                let after = split_lines(reindented(doc, 1, IndentStyle::Tab))[i];
                after == indent_run(IndentStyle::Tab, leading_spaces(before) / 2) + before.skip(
                    leading_spaces(before) as int,
                )
            },
{
    lemma_reindent_lines(doc, 1, IndentStyle::Tab);
    assert forall|i: int|
        #![trigger split_lines(doc)[i]]
        0 <= i < split_lines(doc).len() implies {
        let before = split_lines(doc)[i];
        let after = split_lines(reindented(doc, 1, IndentStyle::Tab))[i];
        after == indent_run(IndentStyle::Tab, leading_spaces(before) / 2) + before.skip(
            leading_spaces(before) as int,
        )
    } by {
        let len = leading_spaces(split_lines(doc)[i]);
        assert((len * 1) / 2 == len / 2);
    }
}

/// A line of a document that does not start with a space comes out of any
/// rendering as it went in.
pub proof fn lemma_unindented_lines_unchanged(doc: Seq<char>, width: usize, style: IndentStyle)
    ensures
        forall|i: int|
            #![trigger split_lines(doc)[i]]
            0 <= i < split_lines(doc).len() && leading_spaces(split_lines(doc)[i]) == 0
                ==> split_lines(reindented(doc, width, style))[i] == split_lines(doc)[i],
{
    lemma_reindent_lines(doc, width, style);
    assert forall|i: int|
        #![trigger split_lines(doc)[i]]
        0 <= i < split_lines(doc).len() && leading_spaces(split_lines(doc)[i]) == 0 implies
        split_lines(reindented(doc, width, style))[i] == split_lines(doc)[i] by {
        lemma_unindented_line_unchanged(split_lines(doc)[i], ScaleFactor::for_width(width), style);
    }
}

} // verus!
