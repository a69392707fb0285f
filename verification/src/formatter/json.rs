//! JSON form: one single-line JSON object per record, fields in a fixed
//! order: `ts`, `level`, `msg`, `logger` (if any), record attributes,
//! context attributes.

use vstd::prelude::*;

use crate::attribute::{float_bits_non_finite, LogAttribute, ValueModel};
use crate::context::LogContext;
use crate::formatter::error::FormatError;
use crate::formatter::human::ctx_attrs;
use crate::formatter::render::{attr_value_to_json, json_quote, json_quoted, json_value, json_values, logger_name,
    logger_of, severity_label, severity_label_text};
use crate::formatter::text::ctx_opt;
use crate::formatter::time::{rfc3339_text, rfc3339_utc};
use crate::record::LogRecord;
use crate::text::{join, push_char, push_str, str_eq};

verus! {

/// The text of each key and rendered value.
pub open spec fn pairs_view(v: Seq<(String, String)>) -> Seq<(Seq<char>, Seq<char>)> {
    v.map_values(|p: (String, String)| (p.0@, p.1@))
}

/// `"key":value` with the key as a JSON string literal.
pub open spec fn json_member(p: (Seq<char>, Seq<char>)) -> Seq<char> {
    json_quoted(p.0) + seq![':'] + p.1
}

/// A JSON object with the given members, in order.
pub open spec fn json_object_text(pairs: Seq<(Seq<char>, Seq<char>)>) -> Seq<char> {
    seq!['{'] + join(pairs.map_values(|p: (Seq<char>, Seq<char>)| json_member(p)), seq![',']) + seq!['}']
}

/// The `(name, JSON value)` members of `attrs`, in order (with
/// `skip_logger`, without those named `logger`), or the first refusal.
pub open spec fn json_attr_pairs(attrs: Seq<LogAttribute>, skip_logger: bool) -> Result<
    Seq<(Seq<char>, Seq<char>)>,
    Seq<char>,
>
    decreases attrs.len(),
{
    if attrs.len() == 0 {
        Ok(seq![])
    } else {
        match json_attr_pairs(attrs.drop_last(), skip_logger) {
            Err(e) => Err(e),
            Ok(prev) => {
                let a = attrs.last();
                if skip_logger && a.spec_name() == "logger"@ {
                    Ok(prev)
                } else {
                    match json_value(a.spec_value()@) {
                        Err(e) => Err(e),
                        Ok(v) => Ok(prev.push((a.spec_name(), v))),
                    }
                }
            },
        }
    }
}

/// The fixed leading members: `ts`, `level`, `msg` and, when the context
/// names one, `logger`.
pub open spec fn json_fixed_pairs(rec: LogRecord, ctx: Option<LogContext>) -> Seq<(Seq<char>, Seq<char>)> {
    seq![
        ("ts"@, json_quoted(rfc3339_text(rec.spec_timestamp().secs))),
        ("level"@, json_quoted(severity_label_text(rec.spec_severity()))),
        ("msg"@, json_quoted(rec.spec_message())),
    ] + match logger_of(ctx) {
        Some(n) => seq![("logger"@, json_quoted(n))],
        None => Seq::<(Seq<char>, Seq<char>)>::empty(),
    }
}

/// The JSON line of a record, or the message of the first attribute value
/// that cannot be rendered (a NaN or infinite float).
pub open spec fn json_line(rec: LogRecord, ctx: Option<LogContext>) -> Result<Seq<char>, Seq<char>> {
    match json_attr_pairs(rec.spec_attributes(), false) {
        Err(e) => Err(e),
        Ok(a) => match json_attr_pairs(ctx_attrs(ctx), true) {
            Err(e) => Err(e),
            Ok(b) => Ok(json_object_text(json_fixed_pairs(rec, ctx) + a + b)),
        },
    }
}

/// Serializes an ordered list of `(key, JSON value)` members as a JSON
/// object, keeping their order.
pub fn serialize_ordered_object(pairs: &[(String, String)]) -> (r: Result<String, FormatError>)
    ensures
        r matches Ok(t) && t@ == json_object_text(pairs_view(pairs@)),
{
    let ghost members = pairs_view(pairs@).map_values(|p: (Seq<char>, Seq<char>)| json_member(p));
    let mut out = String::new();
    push_char(&mut out, '{');
    let mut i: usize = 0;
    assert(members.take(0) =~= Seq::<Seq<char>>::empty());
    while i < pairs.len()
        invariant
            i <= pairs.len(),
            members == pairs_view(pairs@).map_values(|p: (Seq<char>, Seq<char>)| json_member(p)),
            members.len() == pairs@.len(),
            out@ == seq!['{'] + join(members.take(i as int), seq![',']),
        decreases pairs.len() - i,
    {
        if i > 0 {
            push_char(&mut out, ',');
        }
        let (k, v) = &pairs[i];
        let key_json = match json_quote(k.as_str()) {
            Ok(t) => t,
            Err(e) => {
                return Err(e);
            },
        };
        push_str(&mut out, key_json.as_str());
        push_char(&mut out, ':');
        push_str(&mut out, v.as_str());
        proof {
            assert(members[i as int] == json_member((k@, v@)));
            assert(members.take(i + 1).drop_last() =~= members.take(i as int));
            assert(members.take(i + 1).last() == members[i as int]);
            if i == 0 {
                assert(members.take(1) =~= seq![members[0]]);
            }
            assert(out@ =~= seq!['{'] + join(members.take(i + 1), seq![',']));
        }
        i = i + 1;
    }
    push_char(&mut out, '}');
    assert(members.take(members.len() as int) =~= members);
    assert(out@ =~= json_object_text(pairs_view(pairs@)));
    Ok(out)
}

fn push_json_pairs(pairs: &mut Vec<(String, String)>, attrs: &[LogAttribute], skip_logger: bool) -> (r:
    Result<(), FormatError>)
    ensures
        match json_attr_pairs(attrs@, skip_logger) {
            Ok(a) => r is Ok && pairs_view(final(pairs)@) == pairs_view(old(pairs)@) + a,
            Err(m) => r matches Err(FormatError::RenderError(x)) && x@ == m,
        },
{
    let ghost start = pairs_view(pairs@);
    let mut i: usize = 0;
    assert(attrs@.take(0) =~= Seq::<LogAttribute>::empty());
    assert(start + Seq::<(Seq<char>, Seq<char>)>::empty() =~= start);
    while i < attrs.len()
        invariant
            i <= attrs.len(),
            json_attr_pairs(attrs@.take(i as int), skip_logger) is Ok,
            pairs_view(pairs@) == start + json_attr_pairs(attrs@.take(i as int), skip_logger)->Ok_0,
        decreases attrs.len() - i,
    {
        let a = &attrs[i];
        assert(attrs@.take(i + 1).drop_last() =~= attrs@.take(i as int));
        assert(attrs@.take(i + 1).last() == attrs@[i as int]);
        if !(skip_logger && str_eq(a.name(), "logger")) {
            let v = match attr_value_to_json(a.value()) {
                Ok(v) => v,
                Err(e) => {
                    proof {
                        lemma_json_pairs_err_extends(attrs@, skip_logger, i + 1);
                        assert(attrs@.take(attrs@.len() as int) =~= attrs@);
                    }
                    return Err(e);
                },
            };
            let ghost before = pairs@;
            pairs.push((a.name().to_string(), v));
            assert(pairs_view(pairs@) =~= pairs_view(before).push((a.spec_name(), v@)));
        }
        i = i + 1;
    }
    assert(attrs@.take(attrs@.len() as int) =~= attrs@);
    Ok(())
}

proof fn lemma_json_pairs_err_extends(attrs: Seq<LogAttribute>, skip_logger: bool, k: int)
    requires
        0 <= k <= attrs.len(),
        json_attr_pairs(attrs.take(k), skip_logger) is Err,
    ensures
        json_attr_pairs(attrs.take(attrs.len() as int), skip_logger) == json_attr_pairs(attrs.take(k), skip_logger),
    decreases attrs.len() - k,
{
    if k < attrs.len() {
        assert(attrs.take(k + 1).drop_last() =~= attrs.take(k));
        lemma_json_pairs_err_extends(attrs, skip_logger, k + 1);
    }
}

/// Serializes records as single-line JSON objects.
pub struct JsonFormatter;

impl JsonFormatter {
    /// Formats `record` with its optional `context`. Refuses (with a render
    /// error) a record or context attribute holding a NaN or infinite float.
    pub fn format(&self, record: &LogRecord, context: Option<&LogContext>) -> (r: Result<String, FormatError>)
        ensures
            match json_line(*record, ctx_opt(context)) {
                Ok(t) => r matches Ok(x) && x@ == t,
                Err(m) => r matches Err(FormatError::RenderError(x)) && x@ == m,
            },
    {
        let mut pairs: Vec<(String, String)> = Vec::new();
        let ts = rfc3339_utc(*record.timestamp());
        let ts_json = match json_quote(ts.as_str()) {
            Ok(t) => t,
            Err(e) => {
                return Err(e);
            },
        };
        pairs.push(("ts".to_string(), ts_json));
        let level_json = match json_quote(severity_label(record.severity())) {
            Ok(t) => t,
            Err(e) => {
                return Err(e);
            },
        };
        pairs.push(("level".to_string(), level_json));
        let msg_json = match json_quote(record.message()) {
            Ok(t) => t,
            Err(e) => {
                return Err(e);
            },
        };
        pairs.push(("msg".to_string(), msg_json));
        if let Some(name) = logger_name(context) {
            let name_json = match json_quote(name) {
                Ok(t) => t,
                Err(e) => {
                    return Err(e);
                },
            };
            pairs.push(("logger".to_string(), name_json));
        }
        let ghost fixed = pairs_view(pairs@);
        assert(fixed =~= json_fixed_pairs(*record, ctx_opt(context)));
        match push_json_pairs(&mut pairs, record.attributes(), false) {
            Ok(()) => {},
            Err(e) => {
                return Err(e);
            },
        }
        let ghost after_record = pairs_view(pairs@);
        match context {
            Some(ctx) => {
                match push_json_pairs(&mut pairs, ctx.attributes(), true) {
                    Ok(()) => {},
                    Err(e) => {
                        return Err(e);
                    },
                }
            },
            None => {
                assert(after_record + Seq::<(Seq<char>, Seq<char>)>::empty() =~= after_record);
            },
        }
        proof {
            let a = json_attr_pairs(record.spec_attributes(), false)->Ok_0;
            let b = json_attr_pairs(ctx_attrs(ctx_opt(context)), true)->Ok_0;
            assert(pairs_view(pairs@) =~= json_fixed_pairs(*record, ctx_opt(context)) + a + b);
        }
        serialize_ordered_object(pairs.as_slice())
    }
}

/// A value holds a NaN or infinite float, itself or in an array at any depth.
pub open spec fn holds_non_finite(m: ValueModel) -> bool
    decreases m, 1nat,
{
    match m {
        ValueModel::Float(bits, _, _, _) => float_bits_non_finite(bits),
        ValueModel::List(items) => any_holds_non_finite(items),
        _ => false,
    }
}

/// Some value of `ms` holds a NaN or infinite float.
pub open spec fn any_holds_non_finite(ms: Seq<ValueModel>) -> bool
    decreases ms, 0nat,
{
    if ms.len() == 0 {
        false
    } else {
        any_holds_non_finite(ms.drop_last()) || holds_non_finite(ms.last())
    }
}

/// Some attribute of `attrs` that goes into a JSON line (with
/// `skip_logger`, one not named `logger`) holds a NaN or infinite float.
pub open spec fn attrs_hold_non_finite(attrs: Seq<LogAttribute>, skip_logger: bool) -> bool {
    exists|i: int|
        0 <= i < attrs.len() && !(skip_logger && attrs[i].spec_name() == "logger"@) && holds_non_finite(
            #[trigger] attrs[i].spec_value()@,
        )
}

/// The JSON rendering of a value is refused exactly when the value holds a
/// NaN or infinite float.
pub proof fn lemma_json_value_refuses_non_finite(m: ValueModel)
    ensures
        json_value(m) is Err <==> holds_non_finite(m),
    decreases m, 1nat,
{
    match m {
        ValueModel::List(items) => lemma_json_values_refuse_non_finite(items),
        _ => {},
    }
}

/// Rendering a sequence of values is refused exactly when one of them holds
/// a NaN or infinite float.
pub proof fn lemma_json_values_refuse_non_finite(ms: Seq<ValueModel>)
    ensures
        json_values(ms) is Err <==> any_holds_non_finite(ms),
    decreases ms, 0nat,
{
    if ms.len() > 0 {
        lemma_json_values_refuse_non_finite(ms.drop_last());
        lemma_json_value_refuses_non_finite(ms.last());
    }
}

/// The members of a list of attributes are refused exactly when one of the
/// attributes that goes in holds a NaN or infinite float.
proof fn lemma_json_attr_pairs_refuse_non_finite(attrs: Seq<LogAttribute>, skip_logger: bool)
    ensures
        json_attr_pairs(attrs, skip_logger) is Err <==> attrs_hold_non_finite(attrs, skip_logger),
    decreases attrs.len(),
{
    if attrs.len() > 0 {
        let prev = attrs.drop_last();
        let a = attrs.last();
        lemma_json_attr_pairs_refuse_non_finite(prev, skip_logger);
        lemma_json_value_refuses_non_finite(a.spec_value()@);
        if attrs_hold_non_finite(attrs, skip_logger) {
            let i = choose|i: int|
                0 <= i < attrs.len() && !(skip_logger && attrs[i].spec_name() == "logger"@) && holds_non_finite(
                    #[trigger] attrs[i].spec_value()@,
                );
            if i < attrs.len() - 1 {
                assert(prev[i] == attrs[i]);
            }
        }
        if attrs_hold_non_finite(prev, skip_logger) {
            let i = choose|i: int|
                0 <= i < prev.len() && !(skip_logger && prev[i].spec_name() == "logger"@) && holds_non_finite(
                    #[trigger] prev[i].spec_value()@,
                );
            assert(attrs[i] == prev[i]);
        }
        if !(skip_logger && a.spec_name() == "logger"@) && holds_non_finite(a.spec_value()@) {
            assert(attrs[attrs.len() - 1] == a);
        }
    }
}

/// The JSON form refuses a record exactly when one of its attributes, or
/// one of the context's attributes other than `logger`, holds a NaN or
/// infinite float: every other value has a JSON rendering.
pub proof fn law_json_refuses_exactly_non_finite_floats(rec: LogRecord, ctx: Option<LogContext>)
    ensures
        json_line(rec, ctx) is Err <==> attrs_hold_non_finite(rec.spec_attributes(), false) || attrs_hold_non_finite(
            ctx_attrs(ctx),
            true,
        ),
{
    lemma_json_attr_pairs_refuse_non_finite(rec.spec_attributes(), false);
    lemma_json_attr_pairs_refuse_non_finite(ctx_attrs(ctx), true);
}

} // verus!
