//! Error types for the console exporter.

use vstd::prelude::*;

use crate::text::push_str;

verus! {

/// Errors of the console exporter.
#[derive(Debug, Clone, PartialEq, Eq)]
pub enum ExportError {
    /// Writing to an output stream failed; holds the writer's message.
    Io(String),
    /// A lifecycle rule was broken.
    Lifecycle(String),
    /// Flushing failed.
    Flush(String),
}

/// The human-readable message of an export error.
pub open spec fn export_message(e: ExportError) -> Seq<char> {
    match e {
        ExportError::Io(m) => "I/O error: "@ + m@,
        ExportError::Lifecycle(m) => "lifecycle error: "@ + m@,
        ExportError::Flush(m) => "flush error: "@ + m@,
    }
}

impl ExportError {
    /// The error's message, as its `Display` rendered it.
    pub fn message(&self) -> (r: String)
        ensures
            r@ == export_message(*self),
    {
        let (mut s, m) = match self {
            ExportError::Io(m) => ("I/O error: ".to_string(), m),
            ExportError::Lifecycle(m) => ("lifecycle error: ".to_string(), m),
            ExportError::Flush(m) => ("flush error: ".to_string(), m),
        };
        push_str(&mut s, m.as_str());
        s
    }
}

} // verus!
