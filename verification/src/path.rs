//! The extension of a path, read off its text.
//!
//! The final component of a path is what follows its last `/`. The
//! extension is what follows the last `.` of that component, provided that
//! the component does not begin with that `.` and is not `..`. So `a.tar.gz`
//! has the extension `gz`, `a.` has the empty extension, and `.profile` has
//! none. A path that ends in `/` names no file and has no extension.

use crate::extension::{extension_to_string, recognize_chars, recognized, Extensions};
use crate::text::{append_chars, chars_of, string_of};
use vstd::prelude::*;

verus! {

/// The position of the last `c` in `s`, or -1 if `s` holds none.
pub open spec fn last_index_of(s: Seq<char>, c: char) -> int
    decreases s.len(),
{
    if s.len() == 0 {
        -1
    } else if s.last() == c {
        s.len() - 1
    } else {
        last_index_of(s.drop_last(), c)
    }
}

/// The final component of `path`: what follows its last `/`.
pub open spec fn file_name(path: Seq<char>) -> Seq<char> {
    path.skip(last_index_of(path, '/') + 1)
}

/// Where in `name`, a final component, the extension begins, if it has one.
pub open spec fn extension_start(name: Seq<char>) -> Option<int> {
    let dot = last_index_of(name, '.');
    if dot <= 0 || name == seq!['.', '.'] {
        None
    } else {
        Some(dot + 1)
    }
}

/// The extension of `path`, without its dot.
pub open spec fn extension_of(path: Seq<char>) -> Option<Seq<char>> {
    match extension_start(file_name(path)) {
        Some(start) => Some(file_name(path).skip(start)),
        None => None,
    }
}

/// `last_index_of` is -1 where the character does not occur, and else the
/// place of an occurrence that no other follows.
pub proof fn lemma_last_index_of(s: Seq<char>, c: char)
    ensures
        -1 <= last_index_of(s, c) < s.len(),
        last_index_of(s, c) >= 0 ==> s[last_index_of(s, c)] == c,
        forall|i: int| last_index_of(s, c) < i < s.len() ==> s[i] != c,
    decreases s.len(),
{
    if s.len() > 0 && s.last() != c {
        let front = s.drop_last();
        lemma_last_index_of(front, c);
        assert forall|i: int| last_index_of(s, c) < i < s.len() implies s[i] != c by {
            if i < front.len() {
                assert(front[i] == s[i]);
            }
        }
    }
}

/// A place that is -1 or holds the character, and that no occurrence
/// follows, is `last_index_of`.
pub proof fn lemma_last_index_of_is(s: Seq<char>, c: char, at: int)
    requires
        -1 <= at < s.len(),
        at >= 0 ==> s[at] == c,
        forall|i: int| at < i < s.len() ==> s[i] != c,
    ensures
        last_index_of(s, c) == at,
    decreases s.len(),
{
    if s.len() > 0 && s.last() != c {
        lemma_last_index_of_is(s.drop_last(), c, at);
    }
}

/// The position of the last `c` in `s` from `from` on, if there is one.
fn find_last(s: &Vec<char>, from: usize, c: char) -> (found: Option<usize>)
    requires
        from <= s.len(),
    ensures
        match found {
            Some(at) => from <= at < s.len() && s@[at as int] == c && last_index_of(
                s@.skip(from as int),
                c,
            ) == at - from,
            None => last_index_of(s@.skip(from as int), c) == -1,
        },
{
    let ghost tail = s@.skip(from as int);
    let mut i: usize = s.len();
    while i > from
        invariant
            from <= i <= s.len(),
            tail == s@.skip(from as int),
            forall|j: int| i - from <= j < tail.len() ==> tail[j] != c,
        decreases i,
    {
        i -= 1;
        if s[i] == c {
            proof {
                lemma_last_index_of_is(tail, c, i - from);
            }
            return Some(i);
        }
    }
    proof {
        lemma_last_index_of_is(tail, c, -1);
    }
    None
}

/// The position in `path` at which its extension begins, if it has one.
fn find_extension(path: &Vec<char>) -> (found: Option<usize>)
    ensures
        match found {
            Some(start) => start <= path.len() && extension_of(path@) == Some(
                path@.skip(start as int),
            ),
            None => extension_of(path@) is None,
        },
{
    let name_start: usize = match find_last(path, 0, '/') {
        Some(slash) => slash + 1,
        None => 0,
    };
    assert(path@.skip(0) == path@);
    let ghost name = file_name(path@);
    assert(name == path@.skip(name_start as int));
    match find_last(path, name_start, '.') {
        None => None,
        Some(dot) => {
            if dot == name_start {
                None
            } else if path.len() - name_start == 2 && path[name_start] == '.' {
                proof {
                    assert(name.len() == 2);
                    assert(name[0] == '.');
                    assert(name[1] == path@[dot as int]);
                    assert(name =~= seq!['.', '.']);
                }
                None
            } else {
                proof {
                    if name == seq!['.', '.'] {
                        assert(name.len() == 2);
                        assert(name[0] == '.');
                    }
                    assert(name.skip(dot - name_start + 1) == path@.skip(dot + 1));
                }
                Some(dot + 1)
            }
        },
    }
}

/// The extension that `path` ends in, if it is one that can be converted,
/// and else the message that refuses the path.
pub open spec fn classified(path: Seq<char>) -> Result<Extensions, Seq<char>> {
    match extension_of(path) {
        Some(ext) => match recognized(ext) {
            Some(known) => Ok(known),
            None => Err("Invalid extension: "@ + ext),
        },
        None => Err("Invalid extension: "@),
    }
}

/// What the check of a path gives: the path itself if its extension can be
/// converted, and else the message that refuses it.
pub open spec fn validated(path: Seq<char>) -> Result<Seq<char>, Seq<char>> {
    match classified(path) {
        Ok(_) => Ok(path),
        Err(message) => Err(message),
    }
}

/// Finds the extension that a path ends in.
///
/// Gives the extension if it is `yaml`, `yml` or `json`. Any other path is
/// refused with a message that names the extension found; for a path
/// without an extension the message names none.
pub fn classify(path: &str) -> (found: Result<Extensions, String>)
    ensures
        match found {
            Ok(ext) => classified(path@) == Ok::<Extensions, Seq<char>>(ext),
            Err(message) => classified(path@) == Err::<Extensions, Seq<char>>(message@),
        },
{
    let chars = chars_of(path);
    let mut message: Vec<char> = chars_of("Invalid extension: ");
    match find_extension(&chars) {
        Some(start) => {
            let ext = suffix(&chars, start);
            match recognize_chars(&ext) {
                Some(known) => Ok(known),
                None => {
                    append_chars(&mut message, &ext);
                    Err(string_of(&message))
                },
            }
        },
        None => Err(string_of(&message)),
    }
}

/// Checks that a path ends in an extension that can be converted.
///
/// Gives the path back if its extension is `yaml`, `yml` or `json`, and
/// else the message of `classify`.
pub fn valid_ext(s: &str) -> (checked: Result<String, String>)
    ensures
        match checked {
            Ok(path) => validated(s@) == Ok::<Seq<char>, Seq<char>>(path@),
            Err(message) => validated(s@) == Err::<Seq<char>, Seq<char>>(message@),
        },
{
    match classify(s) {
        Ok(_) => Ok(s.to_owned()),
        Err(message) => Err(message),
    }
}

/// The characters of `s` from `from` on.
fn suffix(s: &Vec<char>, from: usize) -> (tail: Vec<char>)
    requires
        from <= s.len(),
    ensures
        tail@ == s@.skip(from as int),
{
    let mut tail: Vec<char> = Vec::new();
    let mut i: usize = from;
    while i < s.len()
        invariant
            from <= i <= s.len(),
            tail@ == s@.subrange(from as int, i as int),
        decreases s.len() - i,
    {
        tail.push(s[i]);
        i += 1;
    }
    assert(s@.subrange(from as int, s.len() as int) == s@.skip(from as int));
    tail
}

/// The extension of `path`, without its dot.
pub fn path_extension(path: &str) -> (found: Option<String>)
    ensures
        match found {
            Some(ext) => extension_of(path@) == Some(ext@),
            None => extension_of(path@) is None,
        },
{
    let chars = chars_of(path);
    match find_extension(&chars) {
        Some(start) => {
            let ext = suffix(&chars, start);
            Some(string_of(&ext))
        },
        None => None,
    }
}

/// `path` with `ext` in the place of its extension, if it has one.
pub open spec fn with_extension(path: Seq<char>, ext: Extensions) -> Option<Seq<char>> {
    match extension_of(path) {
        Some(old) => Some(path.take(path.len() - old.len()) + ext.text()),
        None => None,
    }
}

/// The path of the file that a conversion of `path` to `ext` writes: `path`
/// with `ext` in the place of its extension. A path without an extension
/// has no such file.
pub fn replace_extension(path: &str, ext: &Extensions) -> (replaced: Option<String>)
    ensures
        match replaced {
            Some(out) => with_extension(path@, *ext) == Some(out@),
            None => with_extension(path@, *ext) is None,
        },
{
    let chars = chars_of(path);
    match find_extension(&chars) {
        Some(start) => {
            let mut out: Vec<char> = Vec::new();
            let mut i: usize = 0;
            while i < start
                invariant
                    i <= start <= chars.len(),
                    out@ == chars@.take(i as int),
                decreases start - i,
            {
                out.push(chars[i]);
                i += 1;
            }
            let tail = chars_of(extension_to_string(ext).as_str());
            append_chars(&mut out, &tail);
            Some(string_of(&out))
        },
        None => None,
    }
}

/// The text of an extension holds neither a dot nor a separator.
pub proof fn lemma_extension_text(x: Extensions)
    ensures
        3 <= x.text().len() <= 4,
        forall|i: int| 0 <= i < x.text().len() ==> x.text()[i] != '.' && x.text()[i] != '/',
{
    reveal_strlit("yaml");
    reveal_strlit("yml");
    reveal_strlit("json");
}

/// A path that is accepted ends in a dot and the extension found, and what
/// stands before the dot is a name: it is not empty and does not end in a
/// separator.
pub proof fn lemma_accepted_path_ends_in_extension(path: Seq<char>, x: Extensions)
    requires
        classified(path) == Ok::<Extensions, Seq<char>>(x),
    ensures
        ({
            let stem = path.take(path.len() - x.text().len() - 1);
            &&& path.len() >= x.text().len() + 2
            &&& path == stem + seq!['.'] + x.text()
            &&& stem.last() != '/'
        }),
{
    let slash = last_index_of(path, '/');
    let name = file_name(path);
    let dot = last_index_of(name, '.');
    lemma_last_index_of(path, '/');
    lemma_last_index_of(name, '.');
    let ext = name.skip(dot + 1);
    assert(recognized(ext) == Some(x));
    assert(ext == x.text());
    let stem = path.take(path.len() - x.text().len() - 1);
    assert(path.len() - x.text().len() - 1 == slash + 1 + dot);
    assert(name[dot] == '.');
    assert(path[slash + 1 + dot] == '.');
    assert(stem.last() == name[dot - 1]);
    assert(path =~= stem + seq!['.'] + x.text());
}

/// A name, a dot and one of the three extensions make a path that is
/// accepted, with that extension.
pub proof fn lemma_path_with_extension_is_accepted(stem: Seq<char>, x: Extensions)
    requires
        stem.len() > 0,
        stem.last() != '/',
    ensures
        classified(stem + seq!['.'] + x.text()) == Ok::<Extensions, Seq<char>>(x),
        extension_of(stem + seq!['.'] + x.text()) == Some(x.text()),
{
    let text = x.text();
    let path = stem + seq!['.'] + text;
    lemma_extension_text(x);
    crate::extension::lemma_recognized_text(x);
    let slash = last_index_of(stem, '/');
    lemma_last_index_of(stem, '/');
    assert forall|i: int| slash < i < path.len() implies path[i] != '/' by {
        if i < stem.len() {
            assert(path[i] == stem[i]);
        } else if i > stem.len() {
            assert(path[i] == text[i - stem.len() - 1]);
        }
    }
    assert(slash >= 0 ==> path[slash] == '/') by {
        if slash >= 0 {
            assert(path[slash] == stem[slash]);
        }
    }
    lemma_last_index_of_is(path, '/', slash);
    let name = file_name(path);
    let dot = stem.len() - (slash + 1);
    assert(dot > 0);
    assert(name[dot] == path[stem.len() as int]);
    assert forall|i: int| dot < i < name.len() implies name[i] != '.' by {
        assert(name[i] == text[i - dot - 1]);
    }
    lemma_last_index_of_is(name, '.', dot);
    assert(name.len() >= 4);
    assert(name.skip(dot + 1) =~= text);
}

} // verus!
