//! The whole conversion of one document: from the text of one file to the
//! text of another, converted and then rendered at the indentation asked
//! for.
//!
//! Nothing here touches a file. The caller reads the input and writes what
//! it is handed, so a conversion that fails has written nothing.

use crate::bridge::{
    conversion_outcome, convert, convert_formats, format_outcome, outcome_view, ConvertError,
    Failure,
};
use crate::indent::{
    format_file, lemma_reindent_identity, reindented, IndentStyle, CANONICAL_WIDTH,
};
use crate::path::{classified, classify};
use crate::text::same_text;
use vstd::prelude::*;

verus! {

/// How the output is to be indented: `width` characters of `style` for
/// every two spaces that the serializer wrote.
#[derive(Debug, Clone, Copy)]
pub struct IndentSpec {
    pub width: usize,
    pub style: IndentStyle,
}

impl Default for IndentSpec {
    /// Two spaces, the indentation that the serializers write themselves.
    fn default() -> (indent: IndentSpec)
        ensures
            indent.width == CANONICAL_WIDTH,
            indent.style == IndentStyle::Space,
    {
        IndentSpec { width: CANONICAL_WIDTH, style: IndentStyle::Space }
    }
}

/// A converted text rendered at the indentation asked for; a failure stays
/// what it is.
pub open spec fn rendered(outcome: Result<Seq<char>, Failure>, indent: IndentSpec) -> Result<
    Seq<char>,
    Failure,
> {
    match outcome {
        Ok(text) => Ok(reindented(text, indent.width, indent.style)),
        Err(failure) => Err(failure),
    }
}

/// What converting a document gives: the converted text, rendered at the
/// indentation asked for, or the failure of the conversion.
pub open spec fn document_outcome(
    raw: Seq<char>,
    input_ext: Seq<char>,
    output_ext: Seq<char>,
    indent: IndentSpec,
) -> Result<Seq<char>, Failure> {
    rendered(conversion_outcome(raw, input_ext, output_ext), indent)
}

/// What converting the contents of one file into those of another gives.
/// The paths are checked first, the input's before the output's.
pub open spec fn file_outcome(
    input: Seq<char>,
    output: Seq<char>,
    data: Seq<char>,
    indent: IndentSpec,
) -> Result<Seq<char>, Failure> {
    match (classified(input), classified(output)) {
        (Err(message), _) => Err(Failure::InvalidExtension(message)),
        (Ok(_), Err(message)) => Err(Failure::InvalidExtension(message)),
        (Ok(from), Ok(to)) => rendered(format_outcome(data, from.format(), to.format()), indent),
    }
}

/// Renders a converted text at the indentation asked for.
pub fn render(converted: Result<String, ConvertError>, indent: IndentSpec) -> (out: Result<
    String,
    ConvertError,
>)
    ensures
        outcome_view(out) == rendered(outcome_view(converted), indent),
{
    match converted {
        Ok(text) => Ok(format_file(text.as_str(), indent.width, indent.style)),
        Err(error) => Err(error),
    }
}

/// Converts a document and renders it at the indentation asked for.
///
/// `raw` is converted from the format of `input_ext` to that of
/// `output_ext`, and every line of the result is then rescaled from two
/// spaces a level to `indent`. The first failure is returned, and nothing
/// of the document with it.
pub fn convert_document(raw: &str, input_ext: &str, output_ext: &str, indent: IndentSpec) -> (out:
    Result<String, ConvertError>)
    ensures
        outcome_view(out) == document_outcome(raw@, input_ext@, output_ext@, indent),
{
    render(convert(raw, input_ext, output_ext), indent)
}

/// Computes what is to be written to the file at `output` from `data`, the
/// contents of the file at `input`.
///
/// The formats are those of the extensions of the two paths. A path that
/// does not end in `yaml`, `yml` or `json` fails the conversion before
/// `data` is looked at.
pub fn convert_file(style: IndentStyle, input: &str, output: &str, indent: usize, data: &str) -> (out:
    Result<String, ConvertError>)
    ensures
        outcome_view(out) == file_outcome(
            input@,
            output@,
            data@,
            IndentSpec { width: indent, style },
        ),
{
    let from = match classify(input) {
        Ok(ext) => ext,
        Err(message) => {
            return Err(ConvertError::InvalidExtension(message));
        },
    };
    let to = match classify(output) {
        Ok(ext) => ext,
        Err(message) => {
            return Err(ConvertError::InvalidExtension(message));
        },
    };
    render(convert_formats(data, from.format(), to.format()), IndentSpec { width: indent, style })
}

/// Whether the source of a conversion is to be deleted after it: only when
/// that was asked for, and never the file that was just written.
pub fn should_prune(prune: bool, input: &str, output: &str) -> (delete: bool)
    ensures
        delete == (prune && input@ != output@),
{
    prune && !same_text(input, output)
}

/// At the default indentation the rendering changes nothing: a conversion
/// gives, character for character, what the serializer wrote.
pub proof fn lemma_default_rendering(outcome: Result<Seq<char>, Failure>)
    ensures
        rendered(outcome, IndentSpec { width: CANONICAL_WIDTH, style: IndentStyle::Space })
            == outcome,
{
    if let Ok(text) = outcome {
        lemma_reindent_identity(text);
    }
}

/// The conversion of a file fails with `InvalidExtension` exactly when one
/// of the two paths does not end in `yaml`, `yml` or `json`; the message is
/// then that of the input's path if that is refused, and else that of the
/// output's. This holds whatever the file holds.
pub proof fn lemma_invalid_extension(
    input: Seq<char>,
    output: Seq<char>,
    data: Seq<char>,
    indent: IndentSpec,
)
    ensures
        (classified(input) is Err || classified(output) is Err) <==> (file_outcome(
            input,
            output,
            data,
            indent,
        ) matches Err(Failure::InvalidExtension(_))),
        classified(input) matches Err(message) ==> file_outcome(input, output, data, indent)
            == Err::<Seq<char>, Failure>(Failure::InvalidExtension(message)),
        classified(input) is Ok ==> (classified(output) matches Err(message) ==> file_outcome(
            input,
            output,
            data,
            indent,
        ) == Err::<Seq<char>, Failure>(Failure::InvalidExtension(message))),
{
}

} // verus!
