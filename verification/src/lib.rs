//! Conversion of documents between the JSON and the YAML family, and the
//! rendering of the result at a chosen indentation.
//!
//! - [`indent`] rescales the leading spaces of every line of a serialized
//!   document, and proves what that does to a document.
//! - [`lines`] cuts a text into lines and joins lines into a text.
//! - [`bridge`] converts a text from one format to the other.
//! - [`document`] puts the two together: convert, then render.
//! - [`extension`] and [`path`] tell the format of a file from its name.
//! - [`codec`] declares the parsers and serializers that `bridge` calls.
//! - [`nesting`] measures how deep a text of relaxed JSON is nested.
//! - [`text`] moves between strings and sequences of characters.
//!
//! Nothing in the library reads or writes a file.

pub mod bridge;
pub mod codec;
pub mod document;
pub mod extension;
pub mod indent;
pub mod lines;
pub mod nesting;
pub mod path;
pub mod text;
