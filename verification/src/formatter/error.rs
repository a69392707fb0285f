//! Errors that can occur while formatting a record.

use vstd::prelude::*;

use crate::text::push_str;

verus! {

/// Errors that can occur during log record formatting. Formatting never
/// panics: every failure surfaces as one of these.
#[derive(Debug, Clone, PartialEq)]
pub enum FormatError {
    /// A serialization step failed.
    SerializationError(String),
    /// An attribute value could not be rendered to its target representation.
    RenderError(String),
}

/// The display text of a format error.
pub open spec fn format_error_message(e: FormatError) -> Seq<char> {
    match e {
        FormatError::SerializationError(m) => "serialization failed: "@ + m@,
        FormatError::RenderError(m) => "value rendering failed: "@ + m@,
    }
}

impl FormatError {
    /// The display text: `serialization failed: ..` or `value rendering failed: ..`.
    pub fn message(&self) -> (r: String)
        ensures
            r@ == format_error_message(*self),
    {
        match self {
            FormatError::SerializationError(m) => {
                let mut out = "serialization failed: ".to_string();
                push_str(&mut out, m.as_str());
                out
            },
            FormatError::RenderError(m) => {
                let mut out = "value rendering failed: ".to_string();
                push_str(&mut out, m.as_str());
                out
            },
        }
    }
}

} // verus!
