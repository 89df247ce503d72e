//! Conversion between the two families of formats.
//!
//! A text is parsed by the parser of its own family and written by the
//! serializer of the family asked for:
//!
//! - YAML to JSON is written over several lines, indented;
//! - JSON to YAML takes relaxed JSON and may put a schema directive first;
//! - YAML to YAML writes the document again in the serializer's own form;
//! - JSON to JSON takes relaxed JSON and writes strict JSON on one line.
//!
//! The first failure ends a conversion: nothing is written of a text that
//! does not parse. Relaxed JSON that is nested deeper than `MAX_NESTING`
//! levels is not handed to its parser; it fails as a text that does not
//! parse.

use crate::extension::{recognize, recognized, Format};
use crate::lines::{is_line, lemma_line_end_is, split_lines};
use crate::nesting::{nesting, too_deep, MAX_NESTING};
use crate::codec::{
    describe_json_error, describe_relaxed_json_error, describe_yaml_error, json_error_text,
    json_written, json_written_pretty, member_of_yaml, parse_relaxed_json,
    parse_relaxed_json_as_yaml, parse_yaml, parse_yaml_as_json, relaxed_json_error_text,
    relaxed_json_parsed, relaxed_json_parsed_as_yaml, string_of_yaml, write_json,
    write_json_pretty, write_yaml, yaml_error_text, yaml_member, yaml_parsed,
    yaml_parsed_as_json, yaml_string, yaml_written,
};
use vstd::prelude::*;
use vstd::string::StringExecFns;

verus! {

/// Why a conversion failed.
#[derive(Debug, PartialEq, Eq)]
pub enum ConvertError {
    /// A path does not end in an extension that can be converted; the
    /// message says which extension it ends in.
    InvalidExtension(String),
    /// No conversion exists from the first extension to the second.
    UnsupportedPair(String, String),
    /// The text is not valid in the format it is said to be in; the
    /// diagnostic is the parser's.
    Parse(Format, String),
    /// The document cannot be written in the format asked for; the
    /// diagnostic is the serializer's.
    Serialize(Format, String),
}

/// A `ConvertError` with its texts as sequences of characters.
pub enum Failure {
    InvalidExtension(Seq<char>),
    UnsupportedPair(Seq<char>, Seq<char>),
    Parse(Format, Seq<char>),
    Serialize(Format, Seq<char>),
}

impl View for ConvertError {
    type V = Failure;

    open spec fn view(&self) -> Failure {
        match self {
            ConvertError::InvalidExtension(message) => Failure::InvalidExtension(message@),
            ConvertError::UnsupportedPair(input, output) => Failure::UnsupportedPair(
                input@,
                output@,
            ),
            ConvertError::Parse(format, diagnostic) => Failure::Parse(*format, diagnostic@),
            ConvertError::Serialize(format, diagnostic) => Failure::Serialize(
                *format,
                diagnostic@,
            ),
        }
    }
}

impl Failure {
    /// The failure in words.
    pub open spec fn message(self) -> Seq<char> {
        match self {
            Failure::InvalidExtension(message) => message,
            Failure::UnsupportedPair(input, output) => "Unsupported extension (\""@ + input
                + "\", \""@ + output + "\")"@,
            Failure::Parse(format, diagnostic) => "Invalid "@ + format.name_spec() + ": "@
                + diagnostic,
            Failure::Serialize(format, diagnostic) => "Cannot write "@ + format.name_spec() + ": "@
                + diagnostic,
        }
    }
}

impl ConvertError {
    /// The error in words, for a diagnostic.
    pub fn message(&self) -> (text: String)
        ensures
            text@ == self@.message(),
    {
        match self {
            ConvertError::InvalidExtension(message) => message.clone(),
            ConvertError::UnsupportedPair(input, output) => {
                let mut text = String::from_str("Unsupported extension (\"");
                text.append(input.as_str());
                text.append("\", \"");
                text.append(output.as_str());
                text.append("\")");
                text
            },
            ConvertError::Parse(format, diagnostic) => {
                let mut text = String::from_str("Invalid ");
                text.append(format.name());
                text.append(": ");
                text.append(diagnostic.as_str());
                text
            },
            ConvertError::Serialize(format, diagnostic) => {
                let mut text = String::from_str("Cannot write ");
                text.append(format.name());
                text.append(": ");
                text.append(diagnostic.as_str());
                text
            },
        }
    }
}

/// The outcome of a conversion with its texts as sequences of characters.
pub open spec fn outcome_view(outcome: Result<String, ConvertError>) -> Result<Seq<char>, Failure> {
    match outcome {
        Ok(text) => Ok(text@),
        Err(error) => Err(error@),
    }
}

/// The key under which a document names its schema.
pub open spec fn schema_key() -> Seq<char> {
    "$schema"@
}

/// The comment that tells a language server the schema of a YAML document.
pub open spec fn schema_directive(schema: Seq<char>) -> Seq<char> {
    "# yaml-language-server: $schema="@ + schema
}

/// `body` below the directive for `schema` and one empty line, or `body`
/// alone where there is no schema.
pub open spec fn with_schema_directive(schema: Option<Seq<char>>, body: Seq<char>) -> Seq<char> {
    match schema {
        Some(schema) => schema_directive(schema) + seq!['\n', '\n'] + body,
        None => body,
    }
}

/// The schema that a document names: the string under `$schema` in its
/// top-level mapping.
pub open spec fn schema_of(doc: serde_yaml::Value) -> Option<Seq<char>> {
    match yaml_member(doc, schema_key()) {
        Some(entry) => yaml_string(entry),
        None => None,
    }
}

/// What converting `raw` from YAML to JSON gives.
pub open spec fn yaml_to_json_outcome(raw: Seq<char>) -> Result<Seq<char>, Failure> {
    match yaml_parsed_as_json(raw) {
        Err(error) => Err(Failure::Parse(Format::Yaml, yaml_error_text(error))),
        Ok(doc) => match json_written_pretty(doc) {
            Err(error) => Err(Failure::Serialize(Format::Json, json_error_text(error))),
            Ok(text) => Ok(text),
        },
    }
}

/// The diagnostic of a text of relaxed JSON that is nested too deep.
pub open spec fn nesting_diagnostic() -> Seq<char> {
    "nested deeper than 128 levels"@
}

/// The failure of a text of relaxed JSON that is nested too deep.
pub open spec fn nesting_failure() -> Failure {
    Failure::Parse(Format::Json, nesting_diagnostic())
}

/// What converting `raw` from JSON to YAML gives.
pub open spec fn json_to_yaml_outcome(raw: Seq<char>) -> Result<Seq<char>, Failure> {
    if too_deep(raw) {
        Err(nesting_failure())
    } else {
        match relaxed_json_parsed_as_yaml(raw) {
            Err(error) => Err(Failure::Parse(Format::Json, relaxed_json_error_text(error))),
            Ok(doc) => match yaml_written(doc) {
                Err(error) => Err(Failure::Serialize(Format::Yaml, yaml_error_text(error))),
                Ok(body) => Ok(with_schema_directive(schema_of(doc), body)),
            },
        }
    }
}

/// What converting `raw` from YAML to YAML gives.
pub open spec fn yaml_to_yaml_outcome(raw: Seq<char>) -> Result<Seq<char>, Failure> {
    match yaml_parsed(raw) {
        Err(error) => Err(Failure::Parse(Format::Yaml, yaml_error_text(error))),
        Ok(doc) => match yaml_written(doc) {
            Err(error) => Err(Failure::Serialize(Format::Yaml, yaml_error_text(error))),
            Ok(text) => Ok(text),
        },
    }
}

/// What converting `raw` from JSON to JSON gives.
pub open spec fn json_to_json_outcome(raw: Seq<char>) -> Result<Seq<char>, Failure> {
    if too_deep(raw) {
        Err(nesting_failure())
    } else {
        match relaxed_json_parsed(raw) {
            Err(error) => Err(Failure::Parse(Format::Json, relaxed_json_error_text(error))),
            Ok(doc) => match json_written(doc) {
                Err(error) => Err(Failure::Serialize(Format::Json, json_error_text(error))),
                Ok(text) => Ok(text),
            },
        }
    }
}

/// What converting `raw` from one format to another gives.
pub open spec fn format_outcome(raw: Seq<char>, input: Format, output: Format) -> Result<
    Seq<char>,
    Failure,
> {
    match (input, output) {
        (Format::Yaml, Format::Json) => yaml_to_json_outcome(raw),
        (Format::Json, Format::Yaml) => json_to_yaml_outcome(raw),
        (Format::Yaml, Format::Yaml) => yaml_to_yaml_outcome(raw),
        (Format::Json, Format::Json) => json_to_json_outcome(raw),
    }
}

/// What converting `raw` gives when the formats are named by extensions.
pub open spec fn conversion_outcome(
    raw: Seq<char>,
    input_ext: Seq<char>,
    output_ext: Seq<char>,
) -> Result<Seq<char>, Failure> {
    match (recognized(input_ext), recognized(output_ext)) {
        (Some(input), Some(output)) => format_outcome(raw, input.format(), output.format()),
        _ => Err(Failure::UnsupportedPair(input_ext, output_ext)),
    }
}

/// The characters of a text that may be missing.
pub open spec fn text_view(text: Option<&str>) -> Option<Seq<char>> {
    match text {
        Some(text) => Some(text@),
        None => None,
    }
}

/// The failure of the YAML parser on a text.
pub fn yaml_parse_error(error: &serde_yaml::Error) -> (failure: ConvertError)
    ensures
        failure@ == Failure::Parse(Format::Yaml, yaml_error_text(*error)),
{
    ConvertError::Parse(Format::Yaml, describe_yaml_error(error))
}

/// The failure of the relaxed JSON parser on a text.
pub fn json_parse_error(error: &json5::Error) -> (failure: ConvertError)
    ensures
        failure@ == Failure::Parse(Format::Json, relaxed_json_error_text(*error)),
{
    ConvertError::Parse(Format::Json, describe_relaxed_json_error(error))
}

/// The failure of the YAML serializer on a document.
pub fn yaml_write_error(error: &serde_yaml::Error) -> (failure: ConvertError)
    ensures
        failure@ == Failure::Serialize(Format::Yaml, yaml_error_text(*error)),
{
    ConvertError::Serialize(Format::Yaml, describe_yaml_error(error))
}

/// The failure of the JSON serializer on a document.
pub fn json_write_error(error: &serde_json::Error) -> (failure: ConvertError)
    ensures
        failure@ == Failure::Serialize(Format::Json, json_error_text(*error)),
{
    ConvertError::Serialize(Format::Json, describe_json_error(error))
}

/// The failure of a text of relaxed JSON that is nested too deep.
pub fn nesting_error() -> (failure: ConvertError)
    ensures
        failure@ == nesting_failure(),
{
    ConvertError::Parse(Format::Json, "nested deeper than 128 levels".to_owned())
}

/// Puts the directive for `schema`, if there is one, and an empty line above
/// `body`.
///
/// The schema is written as it is. One that holds a line break spreads over
/// more than one line, of which only the first is a comment.
pub fn lift_schema(schema: Option<&str>, body: &str) -> (out: String)
    ensures
        out@ == with_schema_directive(text_view(schema), body@),
{
    match schema {
        Some(schema) => {
            let mut out = String::from_str("# yaml-language-server: $schema=");
            out.append(schema);
            out.append("\n\n");
            out.append(body);
            proof {
                reveal_strlit("\n\n");
                assert("\n\n"@ == seq!['\n', '\n']);
            }
            out
        },
        None => body.to_owned(),
    }
}

/// The schema that a document names, if it names one.
pub fn find_schema<'a>(doc: &'a serde_yaml::Value) -> (schema: Option<&'a str>)
    ensures
        text_view(schema) == schema_of(*doc),
{
    match member_of_yaml(doc, "$schema") {
        Some(entry) => string_of_yaml(entry),
        None => None,
    }
}

/// Converts YAML to JSON, written over several lines.
pub fn yaml_to_json(raw: &str) -> (out: Result<String, ConvertError>)
    ensures
        outcome_view(out) == yaml_to_json_outcome(raw@),
{
    match parse_yaml_as_json(raw) {
        Err(error) => Err(yaml_parse_error(&error)),
        Ok(doc) => match write_json_pretty(&doc) {
            Err(error) => Err(json_write_error(&error)),
            Ok(text) => Ok(text),
        },
    }
}

/// Converts relaxed JSON to YAML, with the schema directive first where the
/// document names its schema.
///
/// A text that is nested deeper than `MAX_NESTING` levels is refused
/// unparsed.
pub fn json_to_yaml(raw: &str) -> (out: Result<String, ConvertError>)
    ensures
        outcome_view(out) == json_to_yaml_outcome(raw@),
{
    if nesting(raw) > MAX_NESTING {
        return Err(nesting_error());
    }
    match parse_relaxed_json_as_yaml(raw) {
        Err(error) => Err(json_parse_error(&error)),
        Ok(doc) => match write_yaml(&doc) {
            Err(error) => Err(yaml_write_error(&error)),
            Ok(body) => Ok(lift_schema(find_schema(&doc), body.as_str())),
        },
    }
}

/// Writes YAML again in the serializer's own form.
pub fn yaml_to_yaml(raw: &str) -> (out: Result<String, ConvertError>)
    ensures
        outcome_view(out) == yaml_to_yaml_outcome(raw@),
{
    match parse_yaml(raw) {
        Err(error) => Err(yaml_parse_error(&error)),
        Ok(doc) => match write_yaml(&doc) {
            Err(error) => Err(yaml_write_error(&error)),
            Ok(text) => Ok(text),
        },
    }
}

/// Converts relaxed JSON to strict JSON on one line.
///
/// A text that is nested deeper than `MAX_NESTING` levels is refused
/// unparsed.
pub fn json_to_json(raw: &str) -> (out: Result<String, ConvertError>)
    ensures
        outcome_view(out) == json_to_json_outcome(raw@),
{
    if nesting(raw) > MAX_NESTING {
        return Err(nesting_error());
    }
    match parse_relaxed_json(raw) {
        Err(error) => Err(json_parse_error(&error)),
        Ok(doc) => match write_json(&doc) {
            Err(error) => Err(json_write_error(&error)),
            Ok(text) => Ok(text),
        },
    }
}

/// Converts `raw` from the format `input` to the format `output`.
pub fn convert_formats(raw: &str, input: Format, output: Format) -> (out: Result<
    String,
    ConvertError,
>)
    ensures
        outcome_view(out) == format_outcome(raw@, input, output),
{
    match (input, output) {
        (Format::Yaml, Format::Json) => yaml_to_json(raw),
        (Format::Json, Format::Yaml) => json_to_yaml(raw),
        (Format::Yaml, Format::Yaml) => yaml_to_yaml(raw),
        (Format::Json, Format::Json) => json_to_json(raw),
    }
}

/// Converts `raw` from the format of the files that end in `input_ext` to
/// that of the files that end in `output_ext`.
///
/// Fails with `UnsupportedPair` if either is not one of `yaml`, `yml` and
/// `json`, without looking at `raw`.
pub fn convert(raw: &str, input_ext: &str, output_ext: &str) -> (out: Result<String, ConvertError>)
    ensures
        outcome_view(out) == conversion_outcome(raw@, input_ext@, output_ext@),
{
    match (recognize(input_ext), recognize(output_ext)) {
        (Some(input), Some(output)) => convert_formats(raw, input.format(), output.format()),
        _ => Err(ConvertError::UnsupportedPair(input_ext.to_owned(), output_ext.to_owned())),
    }
}

/// A conversion fails with `UnsupportedPair` exactly when one of the two
/// extensions is not `yaml`, `yml` or `json`, and it then names both. This
/// holds whatever the text is.
pub proof fn lemma_unsupported_pair(raw: Seq<char>, input_ext: Seq<char>, output_ext: Seq<char>)
    ensures
        (recognized(input_ext) is None || recognized(output_ext) is None) <==> (conversion_outcome(
            raw,
            input_ext,
            output_ext,
        ) matches Err(Failure::UnsupportedPair(_, _))),
        (recognized(input_ext) is None || recognized(output_ext) is None) ==> conversion_outcome(
            raw,
            input_ext,
            output_ext,
        ) == Err::<Seq<char>, Failure>(Failure::UnsupportedPair(input_ext, output_ext)),
{
}

/// Where a document names a schema on one line, the directive is the first
/// line of the output, the second line is empty, and the lines of the
/// serialized document follow.
pub proof fn lemma_schema_lines(schema: Seq<char>, body: Seq<char>)
    requires
        is_line(schema),
    ensures
        split_lines(with_schema_directive(Some(schema), body)) == seq![
            schema_directive(schema),
            Seq::<char>::empty(),
        ] + split_lines(body),
{
    let first = schema_directive(schema);
    let out = with_schema_directive(Some(schema), body);
    let below = seq!['\n'] + body;
    reveal_strlit("# yaml-language-server: $schema=");
    assert(is_line(first));
    assert(out.take(first.len() as int) == first);
    lemma_line_end_is(out, first.len() as int);
    assert(out.skip(first.len() as int + 1) == below);
    assert(below.take(0) == Seq::<char>::empty());
    lemma_line_end_is(below, 0);
    assert(below.skip(1) == body);
    assert(split_lines(below) == seq![Seq::<char>::empty()] + split_lines(body));
    assert(split_lines(out) == seq![first] + split_lines(below));
    assert(seq![first] + (seq![Seq::<char>::empty()] + split_lines(body)) == seq![
        first,
        Seq::<char>::empty(),
    ] + split_lines(body));
}

} // verus!
