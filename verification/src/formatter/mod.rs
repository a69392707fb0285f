//! Stateless log record formatters: JSON, human-readable, compact text and
//! logfmt renderings of a record and its context.

pub mod error;
pub mod human;
pub mod json;
pub mod logfmt;
pub mod render;
pub mod text;
pub mod time;

use vstd::prelude::*;

use crate::context::LogContext;
use crate::formatter::error::FormatError;
use crate::formatter::human::{human_line, HumanReadableFormatter};
use crate::formatter::json::{json_line, JsonFormatter};
use crate::formatter::logfmt::{logfmt_line, LogfmtFormatter};
use crate::formatter::text::{ctx_opt, text_line, TextFormatter};
use crate::record::LogRecord;

verus! {

/// Stateless formatter that converts a record into a `String`. The same
/// inputs always give the same output; failures surface as `FormatError`.
pub trait RecordFormatter: Send + Sync {
    /// Format `record` (with optional `context`) into a string.
    fn format(&self, record: &LogRecord, context: Option<&LogContext>) -> Result<String, FormatError>;
}

impl RecordFormatter for JsonFormatter {
    fn format(&self, record: &LogRecord, context: Option<&LogContext>) -> (r: Result<String, FormatError>)
        ensures
            match format_outcome(LogFormat::Json, *record, ctx_opt(context)) {
                Ok(t) => r matches Ok(x) && x@ == t,
                Err(m) => r matches Err(FormatError::RenderError(x)) && x@ == m,
            },
    {
        JsonFormatter::format(self, record, context)
    }
}

impl RecordFormatter for HumanReadableFormatter {
    fn format(&self, record: &LogRecord, context: Option<&LogContext>) -> (r: Result<String, FormatError>)
        ensures
            match format_outcome(LogFormat::HumanReadable, *record, ctx_opt(context)) {
                Ok(t) => r matches Ok(x) && x@ == t,
                Err(m) => r matches Err(FormatError::RenderError(x)) && x@ == m,
            },
    {
        HumanReadableFormatter::format(self, record, context)
    }
}

impl RecordFormatter for TextFormatter {
    fn format(&self, record: &LogRecord, context: Option<&LogContext>) -> (r: Result<String, FormatError>)
        ensures
            match format_outcome(LogFormat::Text, *record, ctx_opt(context)) {
                Ok(t) => r matches Ok(x) && x@ == t,
                Err(m) => r matches Err(FormatError::RenderError(x)) && x@ == m,
            },
    {
        TextFormatter::format(self, record, context)
    }
}

impl RecordFormatter for LogfmtFormatter {
    fn format(&self, record: &LogRecord, context: Option<&LogContext>) -> (r: Result<String, FormatError>)
        ensures
            match format_outcome(LogFormat::Logfmt, *record, ctx_opt(context)) {
                Ok(t) => r matches Ok(x) && x@ == t,
                Err(m) => r matches Err(FormatError::RenderError(x)) && x@ == m,
            },
    {
        LogfmtFormatter::format(self, record, context)
    }
}

/// Selects which concrete formatter to use.
#[derive(Clone, Copy, Debug, PartialEq, Eq, Structural)]
pub enum LogFormat {
    /// JSON object output (single line, no trailing newline).
    Json,
    /// Human-readable output for developer consoles.
    HumanReadable,
    /// Compact `[LEVEL] logger: message` output.
    Text,
    /// Logfmt `key=value` pairs.
    Logfmt,
}

/// Returns the formatter that corresponds to `format`.
pub fn formatter_from_config(format: LogFormat) -> Box<dyn RecordFormatter> {
    match format {
        LogFormat::Json => Box::new(JsonFormatter),
        LogFormat::HumanReadable => Box::new(HumanReadableFormatter),
        LogFormat::Text => Box::new(TextFormatter),
        LogFormat::Logfmt => Box::new(LogfmtFormatter),
    }
}

/// What formatting a record in `format` gives: the line, or (for JSON only)
/// the message of the render error.
pub open spec fn format_outcome(format: LogFormat, rec: LogRecord, ctx: Option<LogContext>) -> Result<Seq<char>, Seq<char>> {
    match format {
        LogFormat::Json => json_line(rec, ctx),
        LogFormat::HumanReadable => Ok(human_line(rec, ctx)),
        LogFormat::Text => Ok(text_line(rec, ctx)),
        LogFormat::Logfmt => Ok(logfmt_line(rec, ctx)),
    }
}

/// Formats `record` with the formatter that `format` selects.
pub fn format_record(format: LogFormat, record: &LogRecord, context: Option<&LogContext>) -> (r: Result<String, FormatError>)
    ensures
        match format_outcome(format, *record, ctx_opt(context)) {
            Ok(t) => r matches Ok(x) && x@ == t,
            Err(m) => r matches Err(FormatError::RenderError(x)) && x@ == m,
        },
{
    match format {
        LogFormat::Json => JsonFormatter.format(record, context),
        LogFormat::HumanReadable => HumanReadableFormatter.format(record, context),
        LogFormat::Text => TextFormatter.format(record, context),
        LogFormat::Logfmt => LogfmtFormatter.format(record, context),
    }
}

} // verus!
