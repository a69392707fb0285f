//! Building the attribute list of a log call: values convert into attribute
//! values, and a context folds into attributes ahead of the call's own.

use vstd::prelude::*;

use crate::attribute::{attribute_name_problem, FloatValue, LogAttribute, LogAttributeValue};
use crate::context::LogContext;
use crate::validation::ValidationError;

verus! {

/// Converts a value given to a log call into an attribute value.
pub trait IntoAttributeValue {
    /// The attribute value.
    fn into_attribute_value(self) -> LogAttributeValue;
}

impl IntoAttributeValue for &str {
    fn into_attribute_value(self) -> (r: LogAttributeValue)
        ensures
            r matches LogAttributeValue::String(s) && s@ == self@,
    {
        LogAttributeValue::String(self.to_string())
    }
}

impl IntoAttributeValue for String {
    fn into_attribute_value(self) -> (r: LogAttributeValue)
        ensures
            r == LogAttributeValue::String(self),
    {
        LogAttributeValue::String(self)
    }
}

impl IntoAttributeValue for i64 {
    fn into_attribute_value(self) -> (r: LogAttributeValue)
        ensures
            r == LogAttributeValue::Integer(self),
    {
        LogAttributeValue::Integer(self)
    }
}

impl IntoAttributeValue for FloatValue {
    fn into_attribute_value(self) -> (r: LogAttributeValue)
        ensures
            r == LogAttributeValue::Float(self),
    {
        LogAttributeValue::Float(self)
    }
}

impl IntoAttributeValue for bool {
    fn into_attribute_value(self) -> (r: LogAttributeValue)
        ensures
            r == LogAttributeValue::Boolean(self),
    {
        LogAttributeValue::Boolean(self)
    }
}

/// The `(name, text)` of the identifier attributes a context contributes:
/// `correlation_id`, `trace_id` and `span_id`, those that are set, in that
/// order.
pub open spec fn context_id_attrs(ctx: LogContext) -> Seq<(Seq<char>, Seq<char>)> {
    (match ctx.spec_correlation_id() {
        Some(id) => seq![("correlation_id"@, id@)],
        None => Seq::empty(),
    }) + (match ctx.spec_trace_id() {
        Some(id) => seq![("trace_id"@, id@)],
        None => Seq::empty(),
    }) + (match ctx.spec_span_id() {
        Some(id) => seq![("span_id"@, id@)],
        None => Seq::empty(),
    })
}

/// `a` is a string attribute named `name` holding `text`.
pub open spec fn is_string_attr(a: LogAttribute, name: Seq<char>, text: Seq<char>) -> bool {
    &&& a.spec_name() == name
    &&& (a.spec_value() matches LogAttributeValue::String(s) && s@ == text)
}

/// A string attribute named `name` holding `value`, or the refusal of the
/// name.
fn id_attribute(name: &str, value: String) -> (r: Result<LogAttribute, ValidationError>)
    ensures
        match attribute_name_problem(name@) {
            None => r matches Ok(a) && a.spec_name() == name@ && a.spec_value() == LogAttributeValue::String(value),
            Some(msg) => r matches Err(ValidationError::InvalidAttributeName(m)) && m@ == msg,
        },
{
    LogAttribute::new(name.to_string(), LogAttributeValue::String(value))
}

/// Folds a context into the attribute list of a log call: the context's
/// attributes, then its correlation, trace and span identifiers (those that
/// are set) as string attributes of those names, then `extra`.
pub fn fold_context(ctx: &LogContext, extra: Vec<LogAttribute>) -> (r: Result<Vec<LogAttribute>, ValidationError>)
    ensures
        r is Ok,
        r matches Ok(v) && {
            let ids = context_id_attrs(*ctx);
            let n = ctx.spec_attributes().len();
            &&& v@.len() == n + ids.len() + extra@.len()
            &&& forall|i: int| 0 <= i < n ==> (#[trigger] v@[i]).spec_name() == ctx.spec_attributes()[i].spec_name()
                && v@[i].spec_value()@ == ctx.spec_attributes()[i].spec_value()@
            &&& forall|i: int| 0 <= i < ids.len() ==> is_string_attr(#[trigger] v@[n + i], ids[i].0, ids[i].1)
            &&& forall|i: int| 0 <= i < extra@.len() ==> #[trigger] v@[n + ids.len() + i] == extra@[i]
        },
{
    let attrs = ctx.attributes();
    let mut v: Vec<LogAttribute> = Vec::new();
    let mut i: usize = 0;
    while i < attrs.len()
        invariant
            attrs@ == ctx.spec_attributes(),
            i <= attrs@.len(),
            v@.len() == i,
            forall|j: int| 0 <= j < i ==> (#[trigger] v@[j]).spec_name() == attrs@[j].spec_name()
                && v@[j].spec_value()@ == attrs@[j].spec_value()@,
        decreases attrs.len() - i,
    {
        v.push(attrs[i].duplicate());
        i = i + 1;
    }
    let ghost n = attrs@.len() as int;
    let ghost base = v@;
    proof {
        lemma_id_names_valid();
    }
    if let Some(id) = ctx.correlation_id() {
        match id_attribute("correlation_id", id.to_text()) {
            Ok(a) => v.push(a),
            Err(e) => {
                return Err(e);
            },
        }
    }
    let ghost after_c = v@;
    if let Some(id) = ctx.trace_id() {
        match id_attribute("trace_id", id.to_text()) {
            Ok(a) => v.push(a),
            Err(e) => {
                return Err(e);
            },
        }
    }
    let ghost after_t = v@;
    if let Some(id) = ctx.span_id() {
        match id_attribute("span_id", id.to_text()) {
            Ok(a) => v.push(a),
            Err(e) => {
                return Err(e);
            },
        }
    }
    let ghost after_s = v@;
    let ghost ids = context_id_attrs(*ctx);
    assert(after_s.len() == n + ids.len());
    assert forall|k: int| 0 <= k < ids.len() implies is_string_attr(#[trigger] after_s[n + k], ids[k].0, ids[k].1) by {
    }
    let mut extra = extra;
    let ghost extra_v = extra@;
    v.append(&mut extra);
    assert(v@ =~= after_s + extra_v);
    Ok(v)
}

proof fn lemma_id_names_valid()
    ensures
        attribute_name_problem("correlation_id"@) is None,
        attribute_name_problem("trace_id"@) is None,
        attribute_name_problem("span_id"@) is None,
{
    reveal_strlit("correlation_id");
    reveal_strlit("trace_id");
    reveal_strlit("span_id");
    reveal_strlit("timestamp");
    reveal_strlit("severity");
    reveal_strlit("message");
    reveal_strlit("attributes");
    let a = "correlation_id"@;
    let b = "trace_id"@;
    let c = "span_id"@;
    assert(vstd::utf8::is_ascii_chars(a));
    assert(vstd::utf8::is_ascii_chars(b));
    assert(vstd::utf8::is_ascii_chars(c));
    vstd::utf8::is_ascii_chars_encode_utf8(a);
    vstd::utf8::is_ascii_chars_encode_utf8(b);
    vstd::utf8::is_ascii_chars_encode_utf8(c);
    assert(a != "timestamp"@ && a != "severity"@ && a != "message"@ && a != "attributes"@) by {
        assert(a.len() != "timestamp"@.len() || a[0] != "timestamp"@[0]);
    }
    assert(b != "timestamp"@ && b != "severity"@ && b != "message"@ && b != "attributes"@) by {
        assert(b[0] != "timestamp"@[0] || b.len() != "timestamp"@.len());
        assert(b.len() != "severity"@.len() || b[0] != "severity"@[0]);
        assert(b.len() != "message"@.len());
        assert(b.len() != "attributes"@.len());
    }
    assert(c != "timestamp"@ && c != "severity"@ && c != "message"@ && c != "attributes"@) by {
        assert(c.len() != "timestamp"@.len());
        assert(c[0] != "severity"@[0] || c.len() != "severity"@.len());
        assert(c.len() != "message"@.len() || c[0] != "message"@[0]);
        assert(c.len() != "attributes"@.len());
    }
}

} // verus!
