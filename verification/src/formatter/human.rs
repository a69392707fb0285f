//! Human-readable form: `<ts>  <LEVEL> [<logger>] <message>  key=val ...`.

use vstd::prelude::*;

use crate::attribute::LogAttribute;
use crate::context::LogContext;
use crate::formatter::error::FormatError;
use crate::formatter::render::{attr_value_to_human, human_value_text, logger_name, logger_of,
    severity_label, severity_label_text};
use crate::formatter::text::ctx_opt;
use crate::formatter::time::{rfc3339_text, rfc3339_utc};
use crate::record::LogRecord;
use crate::text::{join, join_strings, push_str, str_eq, strings_view};

verus! {

/// The attributes of an optional context (none without a context).
pub open spec fn ctx_attrs(ctx: Option<LogContext>) -> Seq<LogAttribute> {
    match ctx {
        Some(c) => c.spec_attributes(),
        None => seq![],
    }
}

/// `name=value` of one attribute in the human-readable form.
pub open spec fn human_pair(a: LogAttribute) -> Seq<char> {
    a.spec_name() + "="@ + human_value_text(a.spec_value()@)
}

/// The `name=value` parts of `attrs`, in order; with `skip_logger`, the
/// attributes named `logger` are left out.
pub open spec fn human_pairs(attrs: Seq<LogAttribute>, skip_logger: bool) -> Seq<Seq<char>>
    decreases attrs.len(),
{
    if attrs.len() == 0 {
        seq![]
    } else {
        let prev = human_pairs(attrs.drop_last(), skip_logger);
        if skip_logger && attrs.last().spec_name() == "logger"@ {
            prev
        } else {
            prev.push(human_pair(attrs.last()))
        }
    }
}

/// The human-readable line of a record: timestamp, two spaces, level, the
/// logger in brackets if the context names one, the message, then (after
/// two spaces) the record's attributes and the context's other attributes
/// as space-separated `name=value` parts.
pub open spec fn human_line(rec: LogRecord, ctx: Option<LogContext>) -> Seq<char> {
    let ts = rfc3339_text(rec.spec_timestamp().secs);
    let level = severity_label_text(rec.spec_severity());
    let prefix = match logger_of(ctx) {
        Some(n) => ts + "  "@ + level + " ["@ + n + "] "@ + rec.spec_message(),
        None => ts + "  "@ + level + " "@ + rec.spec_message(),
    };
    let parts = human_pairs(rec.spec_attributes(), false) + human_pairs(ctx_attrs(ctx), true);
    if parts.len() == 0 {
        prefix
    } else {
        prefix + "  "@ + join(parts, " "@)
    }
}

fn push_human_pairs(parts: &mut Vec<String>, attrs: &[LogAttribute], skip_logger: bool)
    ensures
        strings_view(final(parts)@) == strings_view(old(parts)@) + human_pairs(attrs@, skip_logger),
{
    let ghost start = strings_view(parts@);
    let mut i: usize = 0;
    assert(attrs@.take(0) =~= Seq::<LogAttribute>::empty());
    assert(start + Seq::<Seq<char>>::empty() =~= start);
    while i < attrs.len()
        invariant
            i <= attrs.len(),
            strings_view(parts@) == start + human_pairs(attrs@.take(i as int), skip_logger),
        decreases attrs.len() - i,
    {
        let a = &attrs[i];
        assert(attrs@.take(i + 1).drop_last() =~= attrs@.take(i as int));
        assert(attrs@.take(i + 1).last() == attrs@[i as int]);
        let ghost before = parts@;
        if !(skip_logger && str_eq(a.name(), "logger")) {
            let mut p = a.name().to_string();
            push_str(&mut p, "=");
            let v = attr_value_to_human(a.value());
            push_str(&mut p, v.as_str());
            parts.push(p);
            assert(strings_view(parts@) =~= strings_view(before).push(p@));
        }
        i = i + 1;
    }
    assert(attrs@.take(attrs@.len() as int) =~= attrs@);
}

/// Produces developer-friendly single-line log strings.
pub struct HumanReadableFormatter;

impl HumanReadableFormatter {
    /// Formats `record` with its optional `context`; never fails.
    pub fn format(&self, record: &LogRecord, context: Option<&LogContext>) -> (r: Result<String, FormatError>)
        ensures
            r matches Ok(t) && t@ == human_line(*record, ctx_opt(context)),
    {
        let ts = rfc3339_utc(*record.timestamp());
        let level = severity_label(record.severity());
        let msg = record.message();
        let mut out = ts;
        push_str(&mut out, "  ");
        push_str(&mut out, level);
        match logger_name(context) {
            Some(name) => {
                push_str(&mut out, " [");
                push_str(&mut out, name);
                push_str(&mut out, "] ");
            },
            None => {
                push_str(&mut out, " ");
            },
        }
        push_str(&mut out, msg);
        let mut parts: Vec<String> = Vec::new();
        push_human_pairs(&mut parts, record.attributes(), false);
        if let Some(ctx) = context {
            push_human_pairs(&mut parts, ctx.attributes(), true);
        } else {
            assert(human_pairs(Seq::<LogAttribute>::empty(), true) =~= Seq::<Seq<char>>::empty());
            assert(strings_view(parts@) + Seq::<Seq<char>>::empty() =~= strings_view(parts@));
        }
        assert(Seq::<Seq<char>>::empty() + human_pairs(record.spec_attributes(), false)
            =~= human_pairs(record.spec_attributes(), false));
        if parts.len() == 0 {
            Ok(out)
        } else {
            push_str(&mut out, "  ");
            let body = join_strings(&parts, " ");
            push_str(&mut out, body.as_str());
            Ok(out)
        }
    }
}

} // verus!
