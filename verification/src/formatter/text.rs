//! Compact text form: `[LEVEL] logger: message`.

use vstd::prelude::*;

use crate::context::LogContext;
use crate::formatter::error::FormatError;
use crate::formatter::render::{logger_name, logger_of, severity_label, severity_label_text};
use crate::record::LogRecord;
use crate::text::push_str;

verus! {

/// The context behind an optional reference.
pub open spec fn ctx_opt(ctx: Option<&LogContext>) -> Option<LogContext> {
    match ctx {
        Some(c) => Some(*c),
        None => None,
    }
}

/// The text form: `[LEVEL] logger: message`, or `[LEVEL] message` when the
/// context names no logger.
pub open spec fn text_line(rec: LogRecord, ctx: Option<LogContext>) -> Seq<char> {
    let level = severity_label_text(rec.spec_severity());
    match logger_of(ctx) {
        Some(n) => "["@ + level + "] "@ + n + ": "@ + rec.spec_message(),
        None => "["@ + level + "] "@ + rec.spec_message(),
    }
}

/// Produces compact `[LEVEL] logger: message` strings.
pub struct TextFormatter;

impl TextFormatter {
    /// Formats `record` with its optional `context`; never fails.
    pub fn format(&self, record: &LogRecord, context: Option<&LogContext>) -> (r: Result<String, FormatError>)
        ensures
            r matches Ok(t) && t@ == text_line(*record, ctx_opt(context)),
    {
        let level = severity_label(record.severity());
        let msg = record.message();
        let mut out = "[".to_string();
        push_str(&mut out, level);
        push_str(&mut out, "] ");
        match logger_name(context) {
            Some(name) => {
                push_str(&mut out, name);
                push_str(&mut out, ": ");
                push_str(&mut out, msg);
            },
            None => {
                push_str(&mut out, msg);
            },
        }
        Ok(out)
    }
}

} // verus!
