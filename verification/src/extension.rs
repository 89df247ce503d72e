//! File name extensions and the formats that they stand for.
//!
//! Three extensions can be converted: `yaml` and `yml`, which both stand for
//! YAML, and `json`. They are compared letter for letter, so `YAML` is not
//! `yaml`.

use crate::text::{chars_of, same_chars};
use vstd::prelude::*;
use vstd::string::StringExecFns;

verus! {

/// The extensions of the files that can be converted.
#[derive(Debug, Clone, Copy, PartialEq, Eq, Structural, PartialOrd, Ord, Hash)]
pub enum Extensions {
    Yaml,
    Yml,
    Json,
}

/// The two families of formats. `yaml` and `yml` name the same one.
#[derive(Debug, Clone, Copy, PartialEq, Eq, Structural, Hash)]
pub enum Format {
    Json,
    Yaml,
}

impl Extensions {
    /// The extension as it is written at the end of a file name.
    pub open spec fn text(self) -> Seq<char> {
        match self {
            Extensions::Yaml => "yaml"@,
            Extensions::Yml => "yml"@,
            Extensions::Json => "json"@,
        }
    }

    /// The format of the files that carry this extension.
    pub open spec fn format_spec(self) -> Format {
        match self {
            Extensions::Yaml => Format::Yaml,
            Extensions::Yml => Format::Yaml,
            Extensions::Json => Format::Json,
        }
    }

    /// The format of the files that carry this extension.
    #[verifier::when_used_as_spec(format_spec)]
    pub fn format(self) -> (format: Format)
        ensures
            format == self.format_spec(),
    {
        match self {
            Extensions::Yaml => Format::Yaml,
            Extensions::Yml => Format::Yaml,
            Extensions::Json => Format::Json,
        }
    }
}

impl Format {
    /// The name of the format, as it is written in a message.
    pub open spec fn name_spec(self) -> Seq<char> {
        match self {
            Format::Json => "JSON"@,
            Format::Yaml => "YAML"@,
        }
    }

    /// The name of the format, as it is written in a message.
    pub fn name(self) -> (name: &'static str)
        ensures
            name@ == self.name_spec(),
    {
        match self {
            Format::Json => "JSON",
            Format::Yaml => "YAML",
        }
    }
}

/// The extension that `ext` spells, if it spells one.
pub open spec fn recognized(ext: Seq<char>) -> Option<Extensions> {
    if ext == "yaml"@ {
        Some(Extensions::Yaml)
    } else if ext == "yml"@ {
        Some(Extensions::Yml)
    } else if ext == "json"@ {
        Some(Extensions::Json)
    } else {
        None
    }
}

/// The three extensions are spelled differently, so each is recognized as
/// itself.
pub proof fn lemma_recognized_text(x: Extensions)
    ensures
        recognized(x.text()) == Some(x),
{
    reveal_strlit("yaml");
    reveal_strlit("yml");
    reveal_strlit("json");
    assert("yaml"@.len() == 4);
    assert("yml"@.len() == 3);
    assert("json"@[0] == 'j');
    assert("yaml"@[0] == 'y');
}

/// The text of an extension.
pub fn extension_to_string(x: &Extensions) -> (s: String)
    ensures
        s@ == x.text(),
{
    match x {
        Extensions::Yaml => "yaml".to_owned(),
        Extensions::Yml => "yml".to_owned(),
        Extensions::Json => "json".to_owned(),
    }
}

/// The extension that `ext` spells, if it spells one.
pub fn recognize(ext: &str) -> (found: Option<Extensions>)
    ensures
        found == recognized(ext@),
{
    let chars = chars_of(ext);
    recognize_chars(&chars)
}

/// The extension that `ext` spells, if it spells one.
pub(crate) fn recognize_chars(ext: &Vec<char>) -> (found: Option<Extensions>)
    ensures
        found == recognized(ext@),
{
    let yaml = chars_of("yaml");
    let yml = chars_of("yml");
    let json = chars_of("json");
    if same_chars(ext, &yaml) {
        Some(Extensions::Yaml)
    } else if same_chars(ext, &yml) {
        Some(Extensions::Yml)
    } else if same_chars(ext, &json) {
        Some(Extensions::Json)
    } else {
        None
    }
}

/// `exts` without its repetitions: of each extension the first occurrence
/// stays, in its place.
pub open spec fn distinct(exts: Seq<Extensions>) -> Seq<Extensions>
    decreases exts.len(),
{
    if exts.len() == 0 {
        Seq::empty()
    } else {
        let before = distinct(exts.drop_last());
        if before.contains(exts.last()) {
            before
        } else {
            before.push(exts.last())
        }
    }
}

/// `distinct` holds every extension of the list, each once.
pub proof fn lemma_distinct(exts: Seq<Extensions>)
    ensures
        forall|x: Extensions| distinct(exts).contains(x) <==> exts.contains(x),
        forall|i: int, j: int|
            0 <= i < j < distinct(exts).len() ==> distinct(exts)[i] != distinct(exts)[j],
    decreases exts.len(),
{
    if exts.len() > 0 {
        let front = exts.drop_last();
        let last = exts.last();
        let before = distinct(front);
        lemma_distinct(front);
        assert forall|x: Extensions| distinct(exts).contains(x) <==> exts.contains(x) by {
            if exts.contains(x) {
                let at = choose|k: int| 0 <= k < exts.len() && exts[k] == x;
                if at < front.len() {
                    assert(front[at] == x);
                    assert(front.contains(x));
                    assert(before.contains(x));
                    let found = choose|k: int| 0 <= k < before.len() && before[k] == x;
                    assert(distinct(exts)[found] == x);
                } else if !before.contains(last) {
                    assert(distinct(exts)[before.len() as int] == x);
                }
            }
            if distinct(exts).contains(x) {
                let at = choose|k: int| 0 <= k < distinct(exts).len() && distinct(exts)[k] == x;
                if at < before.len() {
                    assert(before[at] == x);
                    assert(before.contains(x));
                    assert(front.contains(x));
                    let found = choose|k: int| 0 <= k < front.len() && front[k] == x;
                    assert(exts[found] == x);
                } else {
                    assert(exts[exts.len() - 1] == x);
                }
            }
        }
    }
}

/// The texts of `exts` with a comma between each two.
pub open spec fn comma_separated(exts: Seq<Extensions>) -> Seq<char>
    decreases exts.len(),
{
    if exts.len() == 0 {
        Seq::empty()
    } else if exts.len() == 1 {
        exts[0].text()
    } else {
        comma_separated(exts.drop_last()) + seq![','] + exts.last().text()
    }
}

/// The pattern that matches, at any depth below a directory, the files
/// whose extension is one of `exts`, a list separated by commas.
pub open spec fn glob_pattern(exts: Seq<char>) -> Seq<char> {
    "**/*.{"@ + exts + "}"@
}

/// The extensions of `exts` without repetitions, in the order in which they
/// first occur.
pub fn unique_extensions(exts: &Vec<Extensions>) -> (unique: Vec<Extensions>)
    ensures
        unique@ == distinct(exts@),
{
    let mut unique: Vec<Extensions> = Vec::new();
    let mut i: usize = 0;
    while i < exts.len()
        invariant
            i <= exts.len(),
            unique@ == distinct(exts@.take(i as int)),
        decreases exts.len() - i,
    {
        let ext = exts[i];
        let mut seen = false;
        let mut j: usize = 0;
        while j < unique.len()
            invariant
                j <= unique.len(),
                seen == unique@.take(j as int).contains(ext),
            decreases unique.len() - j,
        {
            if unique[j] == ext {
                seen = true;
            }
            proof {
                let before = unique@.take(j as int);
                let after = unique@.take(j + 1);
                assert(after == before.push(unique@[j as int]));
                if before.contains(ext) {
                    let at = choose|k: int| 0 <= k < before.len() && before[k] == ext;
                    assert(after[at] == ext);
                }
                if unique@[j as int] == ext {
                    assert(after[j as int] == ext);
                }
            }
            j += 1;
        }
        proof {
            assert(unique@.take(unique.len() as int) == unique@);
            assert(exts@.take(i + 1).drop_last() == exts@.take(i as int));
        }
        if !seen {
            unique.push(ext);
        }
        i += 1;
    }
    assert(exts@.take(exts.len() as int) == exts@);
    unique
}

/// The list of extensions that a pattern takes: those of `exts`, each once,
/// with a comma between each two.
pub fn extension_list(exts: &Vec<Extensions>) -> (list: String)
    ensures
        list@ == comma_separated(distinct(exts@)),
{
    let unique = unique_extensions(exts);
    let mut list = String::new();
    let mut i: usize = 0;
    while i < unique.len()
        invariant
            i <= unique.len(),
            list@ == comma_separated(unique@.take(i as int)),
        decreases unique.len() - i,
    {
        if i > 0 {
            list.push(',');
        }
        let text = extension_to_string(&unique[i]);
        list.append(text.as_str());
        proof {
            assert(unique@.take(i + 1).drop_last() == unique@.take(i as int));
        }
        i += 1;
    }
    assert(unique@.take(unique.len() as int) == unique@);
    list
}

/// The pattern that matches, at any depth below a directory, the files
/// whose extension is one of `ext`, a list separated by commas.
pub fn glob_expression(ext: &str) -> (pattern: String)
    ensures
        pattern@ == glob_pattern(ext@),
{
    let mut pattern = String::from_str("**/*.{");
    pattern.append(ext);
    pattern.append("}");
    pattern
}

} // verus!
