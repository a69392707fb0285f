//! Log context: metadata that can be enriched onto log records.

use vstd::prelude::*;

use crate::attribute::{value_model, LogAttribute, LogAttributeValue, ValueModel};
use crate::ids::{CorrelationId, SpanId, TraceId};
use crate::text::{decimal, join, join_strings, push_decimal, push_str, signed_decimal,
    i64_to_decimal, str_eq, strings_view};
use crate::validation::ValidationError;

verus! {

/// Model of one attribute: its name and the model of its value.
pub open spec fn attr_model(a: LogAttribute) -> (Seq<char>, ValueModel) {
    (a.spec_name(), value_model(a.spec_value()))
}

/// Models of a sequence of attributes, in order.
pub open spec fn attrs_model(s: Seq<LogAttribute>) -> Seq<(Seq<char>, ValueModel)> {
    s.map_values(|a: LogAttribute| attr_model(a))
}

/// No two attributes share a name.
pub open spec fn names_distinct(s: Seq<LogAttribute>) -> bool {
    forall|i: int, j: int|
        0 <= i < s.len() && 0 <= j < s.len() && i != j ==> (#[trigger] s[i]).spec_name()
            != (#[trigger] s[j]).spec_name()
}

/// Some attribute of `s` is named `name`.
pub open spec fn has_name(s: Seq<LogAttribute>, name: Seq<char>) -> bool {
    exists|i: int| 0 <= i < s.len() && (#[trigger] s[i]).spec_name() == name
}

/// Message of the refusal to add a second attribute named `name`.
pub open spec fn duplicate_message(name: Seq<char>) -> Seq<char> {
    "Duplicate attribute name: "@ + name
}

/// A context that can be enriched onto log records. Enrichment methods
/// return new values; the context they are called on is never changed.
#[derive(Clone, Debug, PartialEq)]
pub struct LogContext {
    attributes: Vec<LogAttribute>,
    correlation_id: Option<CorrelationId>,
    trace_id: Option<TraceId>,
    span_id: Option<SpanId>,
}

fn copy_attributes(attrs: &Vec<LogAttribute>) -> (r: Vec<LogAttribute>)
    ensures
        attrs_model(r@) == attrs_model(attrs@),
        forall|i: int| 0 <= i < r@.len() ==> (#[trigger] r@[i]).spec_name() == attrs@[i].spec_name(),
        r@.len() == attrs@.len(),
{
    let mut out: Vec<LogAttribute> = Vec::new();
    let mut i: usize = 0;
    while i < attrs.len()
        invariant
            i <= attrs.len(),
            out@.len() == i,
            forall|j: int| 0 <= j < i ==> attr_model(#[trigger] out@[j]) == attr_model(attrs@[j]),
        decreases attrs.len() - i,
    {
        out.push(attrs[i].duplicate());
        i = i + 1;
    }
    assert(attrs_model(out@) =~= attrs_model(attrs@));
    out
}

fn copy_correlation(id: &Option<CorrelationId>) -> (r: Option<CorrelationId>)
    ensures
        r == *id,
{
    match id {
        Some(x) => Some(x.duplicate()),
        None => None,
    }
}

fn copy_trace(id: &Option<TraceId>) -> (r: Option<TraceId>)
    ensures
        r == *id,
{
    match id {
        Some(x) => Some(x.duplicate()),
        None => None,
    }
}

fn copy_span(id: &Option<SpanId>) -> (r: Option<SpanId>)
    ensures
        r == *id,
{
    match id {
        Some(x) => Some(x.duplicate()),
        None => None,
    }
}

/// Position of the attribute named `name`, if any.
fn find_name(attrs: &Vec<LogAttribute>, name: &str) -> (r: Option<usize>)
    ensures
        match r {
            Some(i) => i < attrs@.len() && attrs@[i as int].spec_name() == name@,
            None => !has_name(attrs@, name@),
        },
{
    let mut i: usize = 0;
    while i < attrs.len()
        invariant
            i <= attrs.len(),
            forall|j: int| 0 <= j < i ==> (#[trigger] attrs@[j]).spec_name() != name@,
        decreases attrs.len() - i,
    {
        if str_eq(attrs[i].name(), name) {
            return Some(i);
        }
        i = i + 1;
    }
    None
}

fn duplicate_error(name: &str) -> (r: ValidationError)
    ensures
        r matches ValidationError::EnrichmentError(m) && m@ == duplicate_message(name@),
{
    let mut m = "Duplicate attribute name: ".to_string();
    push_str(&mut m, name);
    ValidationError::EnrichmentError(m)
}

impl LogContext {
    /// The context's attributes, in insertion order.
    pub closed spec fn spec_attributes(&self) -> Seq<LogAttribute> {
        self.attributes@
    }

    /// The correlation identifier, if set.
    pub closed spec fn spec_correlation_id(&self) -> Option<CorrelationId> {
        self.correlation_id
    }

    /// The trace identifier, if set.
    pub closed spec fn spec_trace_id(&self) -> Option<TraceId> {
        self.trace_id
    }

    /// The span identifier, if set.
    pub closed spec fn spec_span_id(&self) -> Option<SpanId> {
        self.span_id
    }

    /// Well-formed: attribute names are pairwise distinct.
    pub open spec fn wf(&self) -> bool {
        names_distinct(self.spec_attributes())
    }

    /// Creates a new, empty context: no attributes and no identifiers.
    pub fn new() -> (r: Self)
        ensures
            r.wf(),
            r.spec_attributes().len() == 0,
            r.spec_correlation_id() is None,
            r.spec_trace_id() is None,
            r.spec_span_id() is None,
    {
        LogContext { attributes: Vec::new(), correlation_id: None, trace_id: None, span_id: None }
    }

    /// Returns the attributes in this context.
    pub fn attributes(&self) -> (r: &[LogAttribute])
        ensures
            r@ == self.spec_attributes(),
    {
        self.attributes.as_slice()
    }

    /// Returns the correlation identifier, if set.
    pub fn correlation_id(&self) -> (r: Option<&CorrelationId>)
        ensures
            match self.spec_correlation_id() {
                Some(id) => r == Some(&id),
                None => r is None,
            },
    {
        match &self.correlation_id {
            Some(id) => Some(id),
            None => None,
        }
    }

    /// Returns the trace identifier, if set.
    pub fn trace_id(&self) -> (r: Option<&TraceId>)
        ensures
            match self.spec_trace_id() {
                Some(id) => r == Some(&id),
                None => r is None,
            },
    {
        match &self.trace_id {
            Some(id) => Some(id),
            None => None,
        }
    }

    /// Returns the span identifier, if set.
    pub fn span_id(&self) -> (r: Option<&SpanId>)
        ensures
            match self.spec_span_id() {
                Some(id) => r == Some(&id),
                None => r is None,
            },
    {
        match &self.span_id {
            Some(id) => Some(id),
            None => None,
        }
    }

    /// Adds an attribute in place; refuses a name that is already present,
    /// leaving the context unchanged.
    pub fn add_attribute(&mut self, attribute: LogAttribute) -> (r: Result<(), ValidationError>)
        requires
            old(self).wf(),
        ensures
            final(self).wf(),
            has_name(old(self).spec_attributes(), attribute.spec_name()) ==> (
                r matches Err(ValidationError::EnrichmentError(m))
                && m@ == duplicate_message(attribute.spec_name())
                && *final(self) == *old(self)),
            !has_name(old(self).spec_attributes(), attribute.spec_name()) ==> (r is Ok
                && final(self).spec_attributes() == old(self).spec_attributes().push(attribute)
                && final(self).spec_correlation_id() == old(self).spec_correlation_id()
                && final(self).spec_trace_id() == old(self).spec_trace_id()
                && final(self).spec_span_id() == old(self).spec_span_id()),
    {
        match find_name(&self.attributes, attribute.name()) {
            Some(_) => Err(duplicate_error(attribute.name())),
            None => {
                self.attributes.push(attribute);
                Ok(())
            },
        }
    }

    /// A new context with `attribute` added; `self` is not modified.
    /// Refuses a name that is already present.
    pub fn with_attribute(&self, attribute: LogAttribute) -> (r: Result<Self, ValidationError>)
        requires
            self.wf(),
        ensures
            has_name(self.spec_attributes(), attribute.spec_name()) ==> (
                r matches Err(ValidationError::EnrichmentError(m))
                && m@ == duplicate_message(attribute.spec_name())),
            !has_name(self.spec_attributes(), attribute.spec_name()) ==> (r matches Ok(c)
                && c.wf()
                && attrs_model(c.spec_attributes()) == attrs_model(self.spec_attributes()).push(
                    attr_model(attribute))
                && c.spec_correlation_id() == self.spec_correlation_id()
                && c.spec_trace_id() == self.spec_trace_id()
                && c.spec_span_id() == self.spec_span_id()),
    {
        if find_name(&self.attributes, attribute.name()).is_some() {
            return Err(duplicate_error(attribute.name()));
        }
        let mut attrs = copy_attributes(&self.attributes);
        let ghost before = attrs@;
        attrs.push(attribute);
        let c = LogContext {
            attributes: attrs,
            correlation_id: copy_correlation(&self.correlation_id),
            trace_id: copy_trace(&self.trace_id),
            span_id: copy_span(&self.span_id),
        };
        proof {
            assert(attrs@.drop_last() == before);
            assert(attrs_model(attrs@) =~= attrs_model(self.attributes@).push(attr_model(attribute)));
            assert forall|i: int, j: int|
                0 <= i < attrs@.len() && 0 <= j < attrs@.len() && i != j implies
                (#[trigger] attrs@[i]).spec_name() != (#[trigger] attrs@[j]).spec_name() by {
                if i < before.len() && j < before.len() {
                    assert(attrs@[i] == before[i]);
                    assert(attrs@[j] == before[j]);
                } else if i < before.len() {
                    assert(attrs@[i].spec_name() == self.attributes@[i].spec_name());
                } else {
                    assert(attrs@[j].spec_name() == self.attributes@[j].spec_name());
                }
            }
        }
        Ok(c)
    }

    /// A new context with the correlation identifier set (last wins).
    pub fn with_correlation_id(&self, id: CorrelationId) -> (r: Result<Self, ValidationError>)
        requires
            self.wf(),
        ensures
            r matches Ok(c) && c.wf()
                && attrs_model(c.spec_attributes()) == attrs_model(self.spec_attributes())
                && c.spec_correlation_id() == Some(id)
                && c.spec_trace_id() == self.spec_trace_id()
                && c.spec_span_id() == self.spec_span_id(),
    {
        let c = LogContext {
            attributes: copy_attributes(&self.attributes),
            correlation_id: Some(id),
            trace_id: copy_trace(&self.trace_id),
            span_id: copy_span(&self.span_id),
        };
        Ok(c)
    }

    /// A new context with the trace identifier set (last wins).
    pub fn with_trace_id(&self, id: TraceId) -> (r: Result<Self, ValidationError>)
        requires
            self.wf(),
        ensures
            r matches Ok(c) && c.wf()
                && attrs_model(c.spec_attributes()) == attrs_model(self.spec_attributes())
                && c.spec_correlation_id() == self.spec_correlation_id()
                && c.spec_trace_id() == Some(id)
                && c.spec_span_id() == self.spec_span_id(),
    {
        let c = LogContext {
            attributes: copy_attributes(&self.attributes),
            correlation_id: copy_correlation(&self.correlation_id),
            trace_id: Some(id),
            span_id: copy_span(&self.span_id),
        };
        Ok(c)
    }

    /// A new context with the span identifier set (last wins).
    pub fn with_span_id(&self, id: SpanId) -> (r: Result<Self, ValidationError>)
        requires
            self.wf(),
        ensures
            r matches Ok(c) && c.wf()
                && attrs_model(c.spec_attributes()) == attrs_model(self.spec_attributes())
                && c.spec_correlation_id() == self.spec_correlation_id()
                && c.spec_trace_id() == self.spec_trace_id()
                && c.spec_span_id() == Some(id),
    {
        let c = LogContext {
            attributes: copy_attributes(&self.attributes),
            correlation_id: copy_correlation(&self.correlation_id),
            trace_id: copy_trace(&self.trace_id),
            span_id: Some(id),
        };
        Ok(c)
    }
}

impl Default for LogContext {
    fn default() -> (r: Self)
        ensures
            r.wf(),
            r.spec_attributes().len() == 0,
            r.spec_correlation_id() is None,
            r.spec_trace_id() is None,
            r.spec_span_id() is None,
    {
        LogContext::new()
    }
}


/// How a context renders an attribute value in its display form.
pub open spec fn context_value_text(v: LogAttributeValue) -> Seq<char> {
    match v {
        LogAttributeValue::String(s) => seq!['"'] + s@ + seq!['"'],
        LogAttributeValue::Integer(n) => signed_decimal(n as int),
        LogAttributeValue::Float(f) => f.text@,
        LogAttributeValue::Boolean(b) => if b { "true"@ } else { "false"@ },
        LogAttributeValue::Timestamp(t) => "SystemTime { tv_sec: "@ + decimal(t.secs as nat)
            + ", tv_nsec: "@ + decimal(t.nanos as nat) + " }"@,
        LogAttributeValue::Array(a) => seq!['['] + decimal(a@.len()) + " items]"@,
    }
}

/// The `name: value` part of one attribute in a context's display.
pub open spec fn attr_part(a: LogAttribute) -> Seq<char> {
    a.spec_name() + ": "@ + context_value_text(a.spec_value())
}

/// The display parts of a sequence of attributes.
pub open spec fn attr_parts(s: Seq<LogAttribute>) -> Seq<Seq<char>> {
    s.map_values(|a: LogAttribute| attr_part(a))
}

/// The `name: value` parts of a context's display, attributes first, then
/// the correlation, trace and span identifiers that are set.
pub open spec fn context_parts(c: LogContext) -> Seq<Seq<char>> {
    attr_parts(c.spec_attributes()) + (match c.spec_correlation_id() {
        Some(id) => seq!["correlation_id: "@ + id@],
        None => Seq::<Seq<char>>::empty(),
    }) + (match c.spec_trace_id() {
        Some(id) => seq!["trace_id: "@ + id@],
        None => Seq::<Seq<char>>::empty(),
    }) + (match c.spec_span_id() {
        Some(id) => seq!["span_id: "@ + id@],
        None => Seq::<Seq<char>>::empty(),
    })
}

/// The display form of a context.
pub open spec fn context_display(c: LogContext) -> Seq<char> {
    let parts = context_parts(c);
    if parts.len() == 0 {
        "LogContext {}"@
    } else {
        "LogContext { "@ + join(parts, ", "@) + " }"@
    }
}

fn value_text(v: &LogAttributeValue) -> (r: String)
    ensures
        r@ == context_value_text(*v),
{
    match v {
        LogAttributeValue::String(s) => {
            let mut out = "\"".to_string();
            push_str(&mut out, s.as_str());
            push_str(&mut out, "\"");
            proof { reveal_strlit("\""); }
            out
        },
        LogAttributeValue::Integer(n) => i64_to_decimal(*n),
        LogAttributeValue::Float(f) => f.text.clone(),
        LogAttributeValue::Boolean(b) => if *b { "true".to_string() } else { "false".to_string() },
        LogAttributeValue::Timestamp(t) => {
            let mut out = "SystemTime { tv_sec: ".to_string();
            push_decimal(&mut out, t.secs);
            push_str(&mut out, ", tv_nsec: ");
            push_decimal(&mut out, t.nanos as u64);
            push_str(&mut out, " }");
            out
        },
        LogAttributeValue::Array(a) => {
            let mut out = "[".to_string();
            proof { reveal_strlit("["); }
            push_decimal(&mut out, a.len() as u64);
            push_str(&mut out, " items]");
            out
        },
    }
}

impl LogContext {
    /// The display form: `LogContext {}` when empty, else
    /// `LogContext { name: value, ..., correlation_id: .., trace_id: .., span_id: .. }`.
    pub fn display(&self) -> (r: String)
        ensures
            r@ == context_display(*self),
    {
        let mut parts: Vec<String> = Vec::new();
        let mut i: usize = 0;
        while i < self.attributes.len()
            invariant
                i <= self.attributes.len(),
                strings_view(parts@) == attr_parts(self.attributes@.take(i as int)),
            decreases self.attributes.len() - i,
        {
            let a = &self.attributes[i];
            let mut part = a.name().to_string();
            push_str(&mut part, ": ");
            let vt = value_text(a.value());
            push_str(&mut part, vt.as_str());
            let ghost before = parts@;
            parts.push(part);
            proof {
                assert(part@ == a.spec_name() + ": "@ + context_value_text(a.spec_value()));
                assert(*a == self.attributes@[i as int]);
                assert(parts@.drop_last() == before);
                assert(strings_view(parts@).drop_last() =~= strings_view(before));
                assert(self.attributes@.take(i + 1).drop_last() =~= self.attributes@.take(i as int));
                let sv = strings_view(parts@);
                let want = attr_parts(self.attributes@.take(i + 1));
                assert(sv.len() == want.len());
                assert forall|k: int| 0 <= k < sv.len() implies sv[k] == want[k] by {
                    if k < i {
                        assert(sv[k] == strings_view(before)[k]);
                        assert(strings_view(before)[k] == attr_parts(self.attributes@.take(i as int))[k]);
                    } else {
                        assert(sv[k] == parts@[k]@);
                    }
                }
                assert(sv =~= want);
            }
            i = i + 1;
        }
        assert(self.attributes@.take(self.attributes@.len() as int) =~= self.attributes@);
        let ghost attr_parts = strings_view(parts@);
        if let Some(id) = &self.correlation_id {
            let mut p = "correlation_id: ".to_string();
            push_str(&mut p, id.as_str());
            parts.push(p);
        }
        let ghost after_cid = strings_view(parts@);
        if let Some(id) = &self.trace_id {
            let mut p = "trace_id: ".to_string();
            push_str(&mut p, id.as_str());
            parts.push(p);
        }
        let ghost after_tid = strings_view(parts@);
        if let Some(id) = &self.span_id {
            let mut p = "span_id: ".to_string();
            push_str(&mut p, id.as_str());
            parts.push(p);
        }
        proof {
            assert(strings_view(parts@) =~= context_parts(*self));
        }
        if parts.len() == 0 {
            "LogContext {}".to_string()
        } else {
            let mut out = "LogContext { ".to_string();
            let body = join_strings(&parts, ", ");
            push_str(&mut out, body.as_str());
            push_str(&mut out, " }");
            out
        }
    }
}

} // verus!
