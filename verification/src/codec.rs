//! The parsers and serializers that the conversions call, and what is taken
//! on trust about them.
//!
//! Nothing in this file is proved. Each item states what the rest of the
//! library believes of a type or a function of another crate. A parsed
//! document is opaque: the library carries it from a parser to a serializer
//! and asks it only for the string under a key of its top-level mapping.
//!
//! None of the functions below reads anything but its arguments, and a
//! mapping keeps its entries in the order in which the text has them (or, in
//! a document of the JSON family, in the order of their keys), so each
//! result is a function of the arguments. The contracts give those functions
//! names and claim nothing of their values.
//!
//! The YAML parser refuses a text that is nested deeper than it is willing
//! to descend. The parser of relaxed JSON descends as deep as the text
//! goes, so its two wrappers require the nesting of the text to be bounded.
//! The serializers are handed nothing but what these parsers returned.

use crate::nesting::{nesting_depth, MAX_NESTING};
use vstd::prelude::*;

verus! {

/// `serde_yaml::Value`, a parsed document of the YAML family.
#[verifier::external_type_specification]
#[verifier::external_body]
pub struct ExYamlValue(serde_yaml::Value);

/// `serde_json::Value`, a parsed document of the JSON family.
#[verifier::external_type_specification]
#[verifier::external_body]
pub struct ExJsonValue(serde_json::Value);

/// `serde_yaml::Error`, the error of the YAML parser and serializer.
#[verifier::external_type_specification]
#[verifier::external_body]
pub struct ExYamlError(serde_yaml::Error);

/// `serde_json::Error`, the error of the JSON serializer.
#[verifier::external_type_specification]
#[verifier::external_body]
pub struct ExJsonError(serde_json::Error);

/// `json5::Error`, the error of the relaxed JSON parser.
#[verifier::external_type_specification]
#[verifier::external_body]
pub struct ExRelaxedJsonError(json5::Error);

/// What `serde_yaml::from_str` returns for a text when a
/// `serde_yaml::Value` is asked for.
pub uninterp spec fn yaml_parsed(text: Seq<char>) -> Result<serde_yaml::Value, serde_yaml::Error>;

/// What `serde_yaml::from_str` returns for a text when a
/// `serde_json::Value` is asked for.
pub uninterp spec fn yaml_parsed_as_json(text: Seq<char>) -> Result<
    serde_json::Value,
    serde_yaml::Error,
>;

/// What `json5::from_str` returns for a text when a `serde_json::Value` is
/// asked for.
pub uninterp spec fn relaxed_json_parsed(text: Seq<char>) -> Result<
    serde_json::Value,
    json5::Error,
>;

/// What `json5::from_str` returns for a text when a `serde_yaml::Value` is
/// asked for.
pub uninterp spec fn relaxed_json_parsed_as_yaml(text: Seq<char>) -> Result<
    serde_yaml::Value,
    json5::Error,
>;

/// What `serde_yaml::to_string` returns for a document.
pub uninterp spec fn yaml_written(doc: serde_yaml::Value) -> Result<Seq<char>, serde_yaml::Error>;

/// What `serde_json::to_string` returns for a document.
pub uninterp spec fn json_written(doc: serde_json::Value) -> Result<Seq<char>, serde_json::Error>;

/// What `serde_json::to_string_pretty` returns for a document.
pub uninterp spec fn json_written_pretty(doc: serde_json::Value) -> Result<
    Seq<char>,
    serde_json::Error,
>;

/// The text that a `serde_yaml::Error` displays.
pub uninterp spec fn yaml_error_text(error: serde_yaml::Error) -> Seq<char>;

/// The text that a `serde_json::Error` displays.
pub uninterp spec fn json_error_text(error: serde_json::Error) -> Seq<char>;

/// The text that a `json5::Error` displays.
pub uninterp spec fn relaxed_json_error_text(error: json5::Error) -> Seq<char>;

/// What `serde_yaml::Value::get` returns for a document and a string key:
/// the value under that key, if the document is a mapping that has the key.
pub uninterp spec fn yaml_member(doc: serde_yaml::Value, key: Seq<char>) -> Option<
    serde_yaml::Value,
>;

/// What `serde_yaml::Value::as_str` returns for a document: its text, if it
/// is a string.
pub uninterp spec fn yaml_string(doc: serde_yaml::Value) -> Option<Seq<char>>;

/// Parses YAML into a document of the YAML family.
///
/// Calls `serde_yaml::from_str::<serde_yaml::Value>`; the contract names its
/// result.
#[verifier::external_body]
pub(crate) fn parse_yaml(text: &str) -> (parsed: Result<serde_yaml::Value, serde_yaml::Error>)
    ensures
        parsed == yaml_parsed(text@),
{
    serde_yaml::from_str::<serde_yaml::Value>(text)
}

/// Parses YAML into a document of the JSON family.
///
/// Calls `serde_yaml::from_str::<serde_json::Value>`; the contract names its
/// result.
#[verifier::external_body]
pub(crate) fn parse_yaml_as_json(text: &str) -> (parsed: Result<
    serde_json::Value,
    serde_yaml::Error,
>)
    ensures
        parsed == yaml_parsed_as_json(text@),
{
    serde_yaml::from_str::<serde_json::Value>(text)
}

/// Parses relaxed JSON into a document of the JSON family.
///
/// Calls `json5::from_str::<serde_json::Value>`; the contract names its
/// result. The parser calls itself once for every array and object that is
/// open where it reads, and an array or an object opens only at a `[` or
/// `{` outside strings and comments. With the nesting of the text bounded,
/// so is the depth of those calls.
#[verifier::external_body]
pub(crate) fn parse_relaxed_json(text: &str) -> (parsed: Result<serde_json::Value, json5::Error>)
    requires
        nesting_depth(text@) <= MAX_NESTING,
    ensures
        parsed == relaxed_json_parsed(text@),
{
    json5::from_str::<serde_json::Value>(text)
}

/// Parses relaxed JSON into a document of the YAML family.
///
/// Calls `json5::from_str::<serde_yaml::Value>`; the contract names its
/// result. The nesting of the text is bounded for the reason given at
/// `parse_relaxed_json`.
#[verifier::external_body]
pub(crate) fn parse_relaxed_json_as_yaml(text: &str) -> (parsed: Result<
    serde_yaml::Value,
    json5::Error,
>)
    requires
        nesting_depth(text@) <= MAX_NESTING,
    ensures
        parsed == relaxed_json_parsed_as_yaml(text@),
{
    json5::from_str::<serde_yaml::Value>(text)
}

/// Writes a document as YAML.
///
/// Calls `serde_yaml::to_string`; the contract names its result.
#[verifier::external_body]
pub(crate) fn write_yaml(doc: &serde_yaml::Value) -> (written: Result<String, serde_yaml::Error>)
    ensures
        match written {
            Ok(text) => yaml_written(*doc) == Ok::<Seq<char>, serde_yaml::Error>(text@),
            Err(error) => yaml_written(*doc) == Err::<Seq<char>, serde_yaml::Error>(error),
        },
{
    serde_yaml::to_string(doc)
}

/// Writes a document as JSON on one line.
///
/// Calls `serde_json::to_string`; the contract names its result.
#[verifier::external_body]
pub(crate) fn write_json(doc: &serde_json::Value) -> (written: Result<String, serde_json::Error>)
    ensures
        match written {
            Ok(text) => json_written(*doc) == Ok::<Seq<char>, serde_json::Error>(text@),
            Err(error) => json_written(*doc) == Err::<Seq<char>, serde_json::Error>(error),
        },
{
    serde_json::to_string(doc)
}

/// Writes a document as JSON over several lines, indented.
///
/// Calls `serde_json::to_string_pretty`; the contract names its result.
#[verifier::external_body]
pub(crate) fn write_json_pretty(doc: &serde_json::Value) -> (written: Result<
    String,
    serde_json::Error,
>)
    ensures
        match written {
            Ok(text) => json_written_pretty(*doc) == Ok::<Seq<char>, serde_json::Error>(text@),
            Err(error) => json_written_pretty(*doc) == Err::<Seq<char>, serde_json::Error>(error),
        },
{
    serde_json::to_string_pretty(doc)
}

/// The diagnostic of a YAML error.
///
/// Formats the error with its `Display` impl; the contract names the text.
#[verifier::external_body]
pub(crate) fn describe_yaml_error(error: &serde_yaml::Error) -> (text: String)
    ensures
        text@ == yaml_error_text(*error),
{
    format!("{}", error)
}

/// The diagnostic of a JSON error.
///
/// Formats the error with its `Display` impl; the contract names the text.
#[verifier::external_body]
pub(crate) fn describe_json_error(error: &serde_json::Error) -> (text: String)
    ensures
        text@ == json_error_text(*error),
{
    format!("{}", error)
}

/// The diagnostic of a relaxed JSON error.
///
/// Formats the error with its `Display` impl; the contract names the text.
#[verifier::external_body]
pub(crate) fn describe_relaxed_json_error(error: &json5::Error) -> (text: String)
    ensures
        text@ == relaxed_json_error_text(*error),
{
    format!("{}", error)
}

/// The value under a string key of a document.
///
/// Calls `serde_yaml::Value::get` with the key; the contract names its
/// result.
#[verifier::external_body]
pub(crate) fn member_of_yaml<'a>(doc: &'a serde_yaml::Value, key: &str) -> (member: Option<
    &'a serde_yaml::Value,
>)
    ensures
        match member {
            Some(value) => yaml_member(*doc, key@) == Some(*value),
            None => yaml_member(*doc, key@) is None,
        },
{
    doc.get(key)
}

/// The text of a document that is a string.
///
/// Calls `serde_yaml::Value::as_str`; the contract names its result.
#[verifier::external_body]
pub(crate) fn string_of_yaml<'a>(doc: &'a serde_yaml::Value) -> (text: Option<&'a str>)
    ensures
        match text {
            Some(s) => yaml_string(*doc) == Some(s@),
            None => yaml_string(*doc) is None,
        },
{
    doc.as_str()
}

} // verus!
