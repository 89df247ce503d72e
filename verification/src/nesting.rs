//! How deep a text of relaxed JSON is nested.
//!
//! The parser of relaxed JSON descends one level for every `[` and `{` that
//! it reads as the opening of an array or an object, and comes back up at
//! the `]` or `}` that closes it. It reads a bracket so wherever the bracket
//! stands outside a string and outside a comment. The scan below follows the
//! same strings and comments and keeps count: a string runs from a quote to
//! the next quote of its kind that no backslash escapes, a line comment from
//! `//` to the end of the line, a block comment from `/*` to `*/`.
//!
//! A text that is not relaxed JSON has a depth too. Where the parser would
//! stop, the scan goes on and counts what follows as if it were structure,
//! so the depth of a text is never less than the depth that the parser
//! reaches in it.

use crate::text::chars_of;
use vstd::prelude::*;

verus! {

/// The deepest nesting that a text of relaxed JSON may have and still be
/// converted.
pub const MAX_NESTING: usize = 128;

/// What the scan is in the middle of.
#[derive(Debug, Clone, Copy)]
pub enum Lex {
    /// Between strings and comments.
    Plain,
    /// After a `/` that may open a comment.
    Slash,
    /// In a string that the given quote closes.
    Text(char),
    /// After a backslash in such a string.
    Escape(char),
    /// In a comment that the end of the line closes.
    LineComment,
    /// In a comment that `*/` closes.
    BlockComment,
    /// After a `*` in such a comment.
    BlockStar,
}

/// Where a scan stands after a part of a text: what it is in the middle of,
/// how many brackets are open, and how many were open at most.
pub struct Scan {
    pub lex: Lex,
    pub depth: nat,
    pub deepest: nat,
}

/// Whether `c` opens an array or an object.
pub open spec fn opens(c: char) -> bool {
    c == '[' || c == '{'
}

/// Whether `c` closes an array or an object.
pub open spec fn closes(c: char) -> bool {
    c == ']' || c == '}'
}

/// Whether `c` ends a line, and with it a line comment.
pub open spec fn ends_line(c: char) -> bool {
    c == '\n' || c == '\r' || c == '\u{2028}' || c == '\u{2029}'
}

/// The scan before the first character.
pub open spec fn start() -> Scan {
    Scan { lex: Lex::Plain, depth: 0, deepest: 0 }
}

/// The scan after `c`, read outside strings and comments.
pub open spec fn plain_step(scan: Scan, c: char) -> Scan {
    if opens(c) {
        Scan {
            lex: Lex::Plain,
            depth: scan.depth + 1,
            deepest: if scan.depth + 1 > scan.deepest {
                scan.depth + 1
            } else {
                scan.deepest
            },
        }
    } else if closes(c) {
        Scan {
            lex: Lex::Plain,
            depth: if scan.depth > 0 {
                (scan.depth - 1) as nat
            } else {
                0
            },
            deepest: scan.deepest,
        }
    } else if c == '"' || c == '\'' {
        Scan { lex: Lex::Text(c), ..scan }
    } else if c == '/' {
        Scan { lex: Lex::Slash, ..scan }
    } else {
        Scan { lex: Lex::Plain, ..scan }
    }
}

/// The scan after one more character.
pub open spec fn step(scan: Scan, c: char) -> Scan {
    match scan.lex {
        Lex::Plain => plain_step(scan, c),
        Lex::Slash => if c == '/' {
            Scan { lex: Lex::LineComment, ..scan }
        } else if c == '*' {
            Scan { lex: Lex::BlockComment, ..scan }
        } else {
            plain_step(scan, c)
        },
        Lex::Text(quote) => if c == quote {
            Scan { lex: Lex::Plain, ..scan }
        } else if c == '\\' {
            Scan { lex: Lex::Escape(quote), ..scan }
        } else {
            scan
        },
        Lex::Escape(quote) => Scan { lex: Lex::Text(quote), ..scan },
        Lex::LineComment => if ends_line(c) {
            Scan { lex: Lex::Plain, ..scan }
        } else {
            scan
        },
        Lex::BlockComment => if c == '*' {
            Scan { lex: Lex::BlockStar, ..scan }
        } else {
            scan
        },
        Lex::BlockStar => if c == '/' {
            Scan { lex: Lex::Plain, ..scan }
        } else if c == '*' {
            scan
        } else {
            Scan { lex: Lex::BlockComment, ..scan }
        },
    }
}

/// The scan after the whole of `text`.
pub open spec fn scanned(text: Seq<char>) -> Scan
    decreases text.len(),
{
    if text.len() == 0 {
        start()
    } else {
        step(scanned(text.drop_last()), text.last())
    }
}

/// How deep `text` is nested: the greatest number of brackets that are open
/// at one place in it.
pub open spec fn nesting_depth(text: Seq<char>) -> nat {
    scanned(text).deepest
}

/// Whether `text` is nested too deep to be converted.
pub open spec fn too_deep(text: Seq<char>) -> bool {
    nesting_depth(text) > MAX_NESTING
}

/// No more brackets are open than characters were read, and never more than
/// were open at most.
pub proof fn lemma_scanned_bounds(text: Seq<char>)
    ensures
        scanned(text).depth <= scanned(text).deepest <= text.len(),
    decreases text.len(),
{
    if text.len() > 0 {
        lemma_scanned_bounds(text.drop_last());
    }
}

/// The depth of a text is at least that of each of its beginnings.
pub proof fn lemma_depth_grows(text: Seq<char>, len: int)
    requires
        0 <= len <= text.len(),
    ensures
        nesting_depth(text.take(len)) <= nesting_depth(text),
    decreases text.len() - len,
{
    if len < text.len() {
        lemma_depth_grows(text, len + 1);
        assert(text.take(len + 1).drop_last() == text.take(len));
    } else {
        assert(text.take(len) == text);
    }
}

/// Reads `c` outside strings and comments.
fn read_plain(c: char, depth: usize, deepest: usize) -> (after: (Lex, usize, usize))
    requires
        depth < usize::MAX,
    ensures
        plain_step(Scan { lex: Lex::Plain, depth: depth as nat, deepest: deepest as nat }, c)
            == (Scan { lex: after.0, depth: after.1 as nat, deepest: after.2 as nat }),
        after.1 <= depth + 1,
        after.2 <= deepest || after.2 == depth + 1,
{
    if c == '[' || c == '{' {
        (Lex::Plain, depth + 1, if depth + 1 > deepest {
            depth + 1
        } else {
            deepest
        })
    } else if c == ']' || c == '}' {
        (Lex::Plain, if depth > 0 {
            depth - 1
        } else {
            0
        }, deepest)
    } else if c == '"' || c == '\'' {
        (Lex::Text(c), depth, deepest)
    } else if c == '/' {
        (Lex::Slash, depth, deepest)
    } else {
        (Lex::Plain, depth, deepest)
    }
}

/// How deep `text` is nested.
pub fn nesting(text: &str) -> (deepest: usize)
    ensures
        deepest == nesting_depth(text@),
{
    let chars = chars_of(text);
    let mut lex = Lex::Plain;
    let mut depth: usize = 0;
    let mut deepest: usize = 0;
    let mut i: usize = 0;
    while i < chars.len()
        invariant
            i <= chars.len(),
            depth <= i,
            deepest <= i,
            scanned(chars@.take(i as int)) == (Scan {
                lex,
                depth: depth as nat,
                deepest: deepest as nat,
            }),
        decreases chars.len() - i,
    {
        let c = chars[i];
        proof {
            assert(chars@.take(i + 1).drop_last() == chars@.take(i as int));
        }
        match lex {
            Lex::Plain => {
                let after = read_plain(c, depth, deepest);
                lex = after.0;
                depth = after.1;
                deepest = after.2;
            },
            Lex::Slash => {
                if c == '/' {
                    lex = Lex::LineComment;
                } else if c == '*' {
                    lex = Lex::BlockComment;
                } else {
                    let after = read_plain(c, depth, deepest);
                    lex = after.0;
                    depth = after.1;
                    deepest = after.2;
                }
            },
            Lex::Text(quote) => {
                if c == quote {
                    lex = Lex::Plain;
                } else if c == '\\' {
                    lex = Lex::Escape(quote);
                }
            },
            Lex::Escape(quote) => {
                lex = Lex::Text(quote);
            },
            Lex::LineComment => {
                if c == '\n' || c == '\r' || c == '\u{2028}' || c == '\u{2029}' {
                    lex = Lex::Plain;
                }
            },
            Lex::BlockComment => {
                if c == '*' {
                    lex = Lex::BlockStar;
                }
            },
            Lex::BlockStar => {
                if c == '/' {
                    lex = Lex::Plain;
                } else if c != '*' {
                    lex = Lex::BlockComment;
                }
            },
        }
        i += 1;
    }
    assert(chars@.take(chars.len() as int) == chars@);
    deepest
}

} // verus!
