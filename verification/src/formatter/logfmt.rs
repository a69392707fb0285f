//! Logfmt form: space-separated `key=value` pairs on one line, in the order
//! `ts`, `level`, `msg`, `logger` (if any), record attributes, context
//! attributes.

use vstd::prelude::*;

use crate::attribute::{float_bits_infinite, float_bits_nan, LogAttribute, LogAttributeValue, ValueModel};
use crate::context::LogContext;
use crate::formatter::error::FormatError;
use crate::formatter::human::ctx_attrs;
use crate::formatter::render::{array_item_to_json, bool_text, logfmt_item_json, logfmt_quote,
    logfmt_quoted, logger_name, logger_of, severity_label, severity_label_text};
use crate::formatter::text::ctx_opt;
use crate::formatter::time::{rfc3339_text, rfc3339_utc};
use crate::record::LogRecord;
use crate::text::{denotes_integer, i64_to_decimal, join, join_strings, lemma_signed_decimal_denotes, push_str, signed_decimal,
    str_eq, strings_view};

verus! {

/// The logfmt token of a value: strings quoted as needed, NaN as `NaN`,
/// infinities as `Inf`, instants as RFC 3339, arrays as inline JSON.
pub open spec fn logfmt_value_text(m: ValueModel) -> Seq<char> {
    match m {
        ValueModel::Str(s) => logfmt_quoted(s),
        ValueModel::Int(n) => signed_decimal(n as int),
        ValueModel::Float(bits, text, _, _) => if float_bits_nan(bits) {
            "NaN"@
        } else if float_bits_infinite(bits) {
            "Inf"@
        } else {
            text
        },
        ValueModel::Bool(b) => bool_text(b),
        ValueModel::Time(t) => rfc3339_text(t.secs),
        ValueModel::List(_) => logfmt_item_json(m),
    }
}

/// Renders a value as a logfmt token; never fails.
pub fn attr_value_to_logfmt(v: &LogAttributeValue) -> (r: Result<String, FormatError>)
    ensures
        r matches Ok(t) && t@ == logfmt_value_text(v@),
{
    match v {
        LogAttributeValue::String(s) => Ok(logfmt_quote(s.as_str())),
        LogAttributeValue::Integer(n) => Ok(i64_to_decimal(*n)),
        LogAttributeValue::Float(f) => {
            if f.is_nan() {
                Ok("NaN".to_string())
            } else if f.is_infinite() {
                Ok("Inf".to_string())
            } else {
                Ok(f.text.clone())
            }
        },
        LogAttributeValue::Boolean(b) => {
            if *b {
                Ok("true".to_string())
            } else {
                Ok("false".to_string())
            }
        },
        LogAttributeValue::Timestamp(t) => Ok(rfc3339_utc(*t)),
        LogAttributeValue::Array(_) => array_item_to_json(v),
    }
}

/// `name=token` of one attribute.
pub open spec fn logfmt_pair(a: LogAttribute) -> Seq<char> {
    a.spec_name() + "="@ + logfmt_value_text(a.spec_value()@)
}

/// The `name=token` pairs of `attrs`, in order; with `skip_logger`, the
/// attributes named `logger` are left out.
pub open spec fn logfmt_pairs(attrs: Seq<LogAttribute>, skip_logger: bool) -> Seq<Seq<char>>
    decreases attrs.len(),
{
    if attrs.len() == 0 {
        seq![]
    } else {
        let prev = logfmt_pairs(attrs.drop_last(), skip_logger);
        if skip_logger && attrs.last().spec_name() == "logger"@ {
            prev
        } else {
            prev.push(logfmt_pair(attrs.last()))
        }
    }
}

/// The logfmt line of a record.
pub open spec fn logfmt_line(rec: LogRecord, ctx: Option<LogContext>) -> Seq<char> {
    let fixed = seq![
        "ts="@ + rfc3339_text(rec.spec_timestamp().secs),
        "level="@ + severity_label_text(rec.spec_severity()),
        "msg="@ + logfmt_quoted(rec.spec_message()),
    ] + match logger_of(ctx) {
        Some(n) => seq!["logger="@ + logfmt_quoted(n)],
        None => Seq::<Seq<char>>::empty(),
    };
    join(fixed + logfmt_pairs(rec.spec_attributes(), false) + logfmt_pairs(ctx_attrs(ctx), true), " "@)
}

fn push_logfmt_pairs(parts: &mut Vec<String>, attrs: &[LogAttribute], skip_logger: bool)
    ensures
        strings_view(final(parts)@) == strings_view(old(parts)@) + logfmt_pairs(attrs@, skip_logger),
{
    let ghost start = strings_view(parts@);
    let mut i: usize = 0;
    assert(attrs@.take(0) =~= Seq::<LogAttribute>::empty());
    assert(start + Seq::<Seq<char>>::empty() =~= start);
    while i < attrs.len()
        invariant
            i <= attrs.len(),
            strings_view(parts@) == start + logfmt_pairs(attrs@.take(i as int), skip_logger),
        decreases attrs.len() - i,
    {
        let a = &attrs[i];
        assert(attrs@.take(i + 1).drop_last() =~= attrs@.take(i as int));
        assert(attrs@.take(i + 1).last() == attrs@[i as int]);
        let ghost before = parts@;
        if !(skip_logger && str_eq(a.name(), "logger")) {
            let mut p = a.name().to_string();
            push_str(&mut p, "=");
            let v = attr_value_to_logfmt(a.value()).unwrap();
            push_str(&mut p, v.as_str());
            parts.push(p);
            assert(strings_view(parts@) =~= strings_view(before).push(p@));
        }
        i = i + 1;
    }
    assert(attrs@.take(attrs@.len() as int) =~= attrs@);
}

fn tagged(tag: &str, value: &str) -> (r: String)
    ensures
        r@ == tag@ + value@,
{
    let mut out = tag.to_string();
    push_str(&mut out, value);
    out
}

/// Produces logfmt `key=value` lines.
pub struct LogfmtFormatter;

impl LogfmtFormatter {
    /// Formats `record` with its optional `context`; never fails.
    pub fn format(&self, record: &LogRecord, context: Option<&LogContext>) -> (r: Result<String, FormatError>)
        ensures
            r matches Ok(t) && t@ == logfmt_line(*record, ctx_opt(context)),
    {
        let mut parts: Vec<String> = Vec::new();
        let ts = rfc3339_utc(*record.timestamp());
        parts.push(tagged("ts=", ts.as_str()));
        parts.push(tagged("level=", severity_label(record.severity())));
        let msg = logfmt_quote(record.message());
        parts.push(tagged("msg=", msg.as_str()));
        if let Some(name) = logger_name(context) {
            let n = logfmt_quote(name);
            parts.push(tagged("logger=", n.as_str()));
        }
        let ghost fixed = strings_view(parts@);
        push_logfmt_pairs(&mut parts, record.attributes(), false);
        let ghost after_record = strings_view(parts@);
        if let Some(ctx) = context {
            push_logfmt_pairs(&mut parts, ctx.attributes(), true);
        } else {
            assert(logfmt_pairs(Seq::<LogAttribute>::empty(), true) =~= Seq::<Seq<char>>::empty());
            assert(after_record + Seq::<Seq<char>>::empty() =~= after_record);
        }
        proof {
            let want = seq![
                "ts="@ + rfc3339_text(record.spec_timestamp().secs),
                "level="@ + severity_label_text(record.spec_severity()),
                "msg="@ + logfmt_quoted(record.spec_message()),
            ] + match logger_of(ctx_opt(context)) {
                Some(n) => seq!["logger="@ + logfmt_quoted(n)],
                None => Seq::<Seq<char>>::empty(),
            };
            assert(fixed =~= want);
            assert(strings_view(parts@) =~= want + logfmt_pairs(record.spec_attributes(), false)
                + logfmt_pairs(ctx_attrs(ctx_opt(context)), true));
        }
        Ok(join_strings(&parts, " "))
    }
}

/// The logfmt token of an integer is its usual decimal writing, with a `-`
/// in front of a negative one; of a boolean, `true` or `false`; of a NaN
/// float, `NaN`; of an infinite one, `Inf`; of a string, the quoted or bare
/// token that `law_logfmt_quoting` describes.
pub proof fn law_logfmt_scalar_tokens(n: i64, b: bool, bits: u64, text: Seq<char>, dt: Seq<char>, jt: Seq<char>, s: Seq<char>)
    ensures
        denotes_integer(logfmt_value_text(ValueModel::Int(n)), n as int),
        logfmt_value_text(ValueModel::Bool(b)) == if b {
            "true"@
        } else {
            "false"@
        },
        float_bits_nan(bits) ==> logfmt_value_text(ValueModel::Float(bits, text, dt, jt)) == "NaN"@,
        float_bits_infinite(bits) ==> logfmt_value_text(ValueModel::Float(bits, text, dt, jt)) == "Inf"@,
        !float_bits_nan(bits) && !float_bits_infinite(bits) ==> logfmt_value_text(ValueModel::Float(bits, text, dt, jt))
            == text,
        logfmt_value_text(ValueModel::Str(s)) == logfmt_quoted(s),
{
    lemma_signed_decimal_denotes(n as int);
}

} // verus!
