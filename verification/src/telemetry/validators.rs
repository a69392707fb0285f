//! Validation rules for telemetry entities. Each validator reports the
//! first rule broken, checking in a fixed order.

use vstd::prelude::*;

use crate::propagation::trace_context::all_zero;
use crate::telemetry::{AttributeValue, InstrumentationScope, LogRecord, Metric, Resource, Span,
    TelemetryError, TelemetryErrorKind};

verus! {


/// The first of two checks that finds a problem.
pub open spec fn first_problem(a: Option<(TelemetryErrorKind, Seq<char>)>, b: Option<(TelemetryErrorKind, Seq<char>)>) -> Option<(TelemetryErrorKind, Seq<char>)> {
    if a is Some {
        a
    } else {
        b
    }
}

/// Some string of `a` is empty.
pub open spec fn has_empty_string(a: Seq<String>) -> bool {
    exists|i: int| 0 <= i < a.len() && (#[trigger] a[i])@.len() == 0
}

/// What is wrong with an attribute value: an empty string, or an empty
/// string inside a string array.
pub open spec fn attribute_value_problem(v: AttributeValue) -> Option<(TelemetryErrorKind, Seq<char>)> {
    match v {
        AttributeValue::String(s) => if s@.len() == 0 {
            Some((TelemetryErrorKind::InvalidAttributeValue, "String attribute value cannot be empty"@))
        } else {
            None
        },
        AttributeValue::StringArray(a) => if has_empty_string(a@) {
            Some(
                (
                    TelemetryErrorKind::InvalidAttributeValue,
                    "String array attribute value cannot contain empty strings"@,
                ),
            )
        } else {
            None
        },
        _ => None,
    }
}

/// What is wrong with a trace identifier: all zeros.
pub open spec fn trace_id_problem(t: Seq<u8>) -> Option<(TelemetryErrorKind, Seq<char>)> {
    if all_zero(t) {
        Some((TelemetryErrorKind::InvalidTraceId, "Trace ID cannot be all zeros"@))
    } else {
        None
    }
}

/// What is wrong with a span identifier: all zeros.
pub open spec fn span_id_problem(t: Seq<u8>) -> Option<(TelemetryErrorKind, Seq<char>)> {
    if all_zero(t) {
        Some((TelemetryErrorKind::InvalidSpanId, "Span ID cannot be all zeros"@))
    } else {
        None
    }
}

/// What is wrong with a resource's attributes, in order: an empty key, or
/// an invalid value.
pub open spec fn resource_problem(attrs: Seq<(String, AttributeValue)>) -> Option<(TelemetryErrorKind, Seq<char>)>
    decreases attrs.len(),
{
    if attrs.len() == 0 {
        None
    } else if attrs[0].0@.len() == 0 {
        Some((TelemetryErrorKind::InvalidResourceAttribute, "Resource attribute key cannot be empty"@))
    } else {
        first_problem(attribute_value_problem(attrs[0].1), resource_problem(attrs.drop_first()))
    }
}

/// What is wrong with an instrumentation scope: an empty name.
pub open spec fn scope_problem(scope: InstrumentationScope) -> Option<(TelemetryErrorKind, Seq<char>)> {
    if scope.name@.len() == 0 {
        Some(
            (
                TelemetryErrorKind::InvalidInstrumentationScopeName,
                "Instrumentation scope name cannot be empty"@,
            ),
        )
    } else {
        None
    }
}

/// A non-empty text check.
pub open spec fn empty_problem(s: Seq<char>, kind: TelemetryErrorKind, msg: Seq<char>) -> Option<(TelemetryErrorKind, Seq<char>)> {
    if s.len() == 0 {
        Some((kind, msg))
    } else {
        None
    }
}

/// What is wrong with a span: trace id, span id, scope, name, resource.
pub open spec fn span_problem(span: Span) -> Option<(TelemetryErrorKind, Seq<char>)> {
    first_problem(
        trace_id_problem(span.context.trace_id@),
        first_problem(
            span_id_problem(span.context.span_id@),
            first_problem(
                scope_problem(span.instrumentation_scope),
                first_problem(
                    empty_problem(span.name@, TelemetryErrorKind::InvalidSpanName, "Span name cannot be empty"@),
                    resource_problem(span.resource.attributes@),
                ),
            ),
        ),
    )
}

/// What is wrong with a log record: trace id, span id, scope, body, resource.
pub open spec fn log_record_problem(rec: LogRecord) -> Option<(TelemetryErrorKind, Seq<char>)> {
    first_problem(
        trace_id_problem(rec.context.trace_id@),
        first_problem(
            span_id_problem(rec.context.span_id@),
            first_problem(
                scope_problem(rec.instrumentation_scope),
                first_problem(
                    empty_problem(rec.body@, TelemetryErrorKind::InvalidLogBody, "Log record body cannot be empty"@),
                    resource_problem(rec.resource.attributes@),
                ),
            ),
        ),
    )
}

/// What is wrong with a metric: scope, name, description, unit, resource.
pub open spec fn metric_problem(m: Metric) -> Option<(TelemetryErrorKind, Seq<char>)> {
    first_problem(
        scope_problem(m.instrumentation_scope),
        first_problem(
            empty_problem(m.name@, TelemetryErrorKind::InvalidMetricName, "Metric name cannot be empty"@),
            first_problem(
                empty_problem(
                    m.description@,
                    TelemetryErrorKind::InvalidMetricDescription,
                    "Metric description cannot be empty"@,
                ),
                first_problem(
                    empty_problem(m.unit@, TelemetryErrorKind::InvalidMetricUnit, "Metric unit cannot be empty"@),
                    resource_problem(m.resource.attributes@),
                ),
            ),
        ),
    )
}

/// The outcome a validator owes for a problem: `Ok` when there is none,
/// else the error that names it.
pub open spec fn outcome_matches(r: Result<(), TelemetryError>, p: Option<(TelemetryErrorKind, Seq<char>)>) -> bool {
    match p {
        None => r is Ok,
        Some(e) => r matches Err(x) && x@ == e,
    }
}

/// Validates an attribute value: strings and string-array elements must
/// not be empty.
pub fn validate_attribute_value(value: &AttributeValue) -> (r: Result<(), TelemetryError>)
    ensures
        outcome_matches(r, attribute_value_problem(*value)),
{
    match value {
        AttributeValue::String(s) => {
            if s.as_str().is_empty() {
                return Err(TelemetryError::InvalidAttributeValue(
                    "String attribute value cannot be empty".to_string(),
                ));
            }
        },
        AttributeValue::StringArray(arr) => {
            let mut i: usize = 0;
            while i < arr.len()
                invariant
                    *value == AttributeValue::StringArray(*arr),
                    i <= arr@.len(),
                    forall|j: int| 0 <= j < i ==> (#[trigger] arr@[j])@.len() != 0,
                decreases arr.len() - i,
            {
                if arr[i].as_str().is_empty() {
                    assert((arr@[i as int])@.len() == 0);
                    assert(has_empty_string(arr@));
                    return Err(TelemetryError::InvalidAttributeValue(
                        "String array attribute value cannot contain empty strings".to_string(),
                    ));
                }
                i = i + 1;
            }
        },
        _ => {},
    }
    Ok(())
}

fn bytes_all_zero(b: &[u8]) -> (r: bool)
    ensures
        r == all_zero(b@),
{
    let mut i: usize = 0;
    while i < b.len()
        invariant
            i <= b.len(),
            forall|j: int| 0 <= j < i ==> #[trigger] b@[j] == 0,
        decreases b.len() - i,
    {
        if b[i] != 0 {
            return false;
        }
        i = i + 1;
    }
    true
}

/// Validates a trace ID: it must not be all zeros.
pub fn validate_trace_id(trace_id: &[u8; 16]) -> (r: Result<(), TelemetryError>)
    ensures
        outcome_matches(r, trace_id_problem(trace_id@)),
{
    if bytes_all_zero(trace_id.as_slice()) {
        return Err(TelemetryError::InvalidTraceId("Trace ID cannot be all zeros".to_string()));
    }
    Ok(())
}

/// Validates a span ID: it must not be all zeros.
pub fn validate_span_id(span_id: &[u8; 8]) -> (r: Result<(), TelemetryError>)
    ensures
        outcome_matches(r, span_id_problem(span_id@)),
{
    if bytes_all_zero(span_id.as_slice()) {
        return Err(TelemetryError::InvalidSpanId("Span ID cannot be all zeros".to_string()));
    }
    Ok(())
}

/// Validates a correlation ID: it must not be empty.
pub fn validate_correlation_id(correlation_id: &str) -> (r: Result<(), TelemetryError>)
    ensures
        outcome_matches(
            r,
            empty_problem(
                correlation_id@,
                TelemetryErrorKind::InvalidCorrelationId,
                "Correlation ID cannot be empty"@,
            ),
        ),
{
    if correlation_id.is_empty() {
        return Err(TelemetryError::InvalidCorrelationId("Correlation ID cannot be empty".to_string()));
    }
    Ok(())
}

/// Validates a resource: every attribute key is non-empty and every value
/// valid, checked attribute by attribute in order.
pub fn validate_resource(resource: &Resource) -> (r: Result<(), TelemetryError>)
    ensures
        outcome_matches(r, resource_problem(resource.attributes@)),
{
    let attrs = &resource.attributes;
    let mut i: usize = 0;
    assert(attrs@.skip(0) =~= attrs@);
    while i < attrs.len()
        invariant
            i <= attrs@.len(),
            attrs@ == resource.attributes@,
            resource_problem(attrs@) == resource_problem(attrs@.skip(i as int)),
        decreases attrs.len() - i,
    {
        let ghost rest = attrs@.skip(i as int);
        assert(rest[0] == attrs@[i as int]);
        assert(rest.drop_first() =~= attrs@.skip(i + 1));
        if attrs[i].0.as_str().is_empty() {
            return Err(TelemetryError::InvalidResourceAttribute(
                "Resource attribute key cannot be empty".to_string(),
            ));
        }
        match validate_attribute_value(&attrs[i].1) {
            Ok(()) => {},
            Err(e) => {
                return Err(e);
            },
        }
        i = i + 1;
    }
    assert(attrs@.skip(i as int) =~= Seq::<(String, AttributeValue)>::empty());
    Ok(())
}

/// Validates an instrumentation scope: its name must not be empty.
pub fn validate_instrumentation_scope(scope: &InstrumentationScope) -> (r: Result<(), TelemetryError>)
    ensures
        outcome_matches(r, scope_problem(*scope)),
{
    if scope.name.as_str().is_empty() {
        return Err(TelemetryError::InvalidInstrumentationScopeName(
            "Instrumentation scope name cannot be empty".to_string(),
        ));
    }
    Ok(())
}

/// Validates a span: trace id, span id, scope, name, then resource.
pub fn validate_span(span: &Span) -> (r: Result<(), TelemetryError>)
    ensures
        outcome_matches(r, span_problem(*span)),
{
    match validate_trace_id(&span.context.trace_id) {
        Ok(()) => {},
        Err(e) => {
            return Err(e);
        },
    }
    match validate_span_id(&span.context.span_id) {
        Ok(()) => {},
        Err(e) => {
            return Err(e);
        },
    }
    match validate_instrumentation_scope(&span.instrumentation_scope) {
        Ok(()) => {},
        Err(e) => {
            return Err(e);
        },
    }
    if span.name.as_str().is_empty() {
        return Err(TelemetryError::InvalidSpanName("Span name cannot be empty".to_string()));
    }
    validate_resource(&span.resource)
}

/// Validates a log record: trace id, span id, scope, body, then resource.
pub fn validate_log_record(log_record: &LogRecord) -> (r: Result<(), TelemetryError>)
    ensures
        outcome_matches(r, log_record_problem(*log_record)),
{
    match validate_trace_id(&log_record.context.trace_id) {
        Ok(()) => {},
        Err(e) => {
            return Err(e);
        },
    }
    match validate_span_id(&log_record.context.span_id) {
        Ok(()) => {},
        Err(e) => {
            return Err(e);
        },
    }
    match validate_instrumentation_scope(&log_record.instrumentation_scope) {
        Ok(()) => {},
        Err(e) => {
            return Err(e);
        },
    }
    if log_record.body.as_str().is_empty() {
        return Err(TelemetryError::InvalidLogBody("Log record body cannot be empty".to_string()));
    }
    validate_resource(&log_record.resource)
}

/// Validates a metric: scope, name, description, unit, then resource.
pub fn validate_metric(metric: &Metric) -> (r: Result<(), TelemetryError>)
    ensures
        outcome_matches(r, metric_problem(*metric)),
{
    match validate_instrumentation_scope(&metric.instrumentation_scope) {
        Ok(()) => {},
        Err(e) => {
            return Err(e);
        },
    }
    if metric.name.as_str().is_empty() {
        return Err(TelemetryError::InvalidMetricName("Metric name cannot be empty".to_string()));
    }
    if metric.description.as_str().is_empty() {
        return Err(TelemetryError::InvalidMetricDescription(
            "Metric description cannot be empty".to_string(),
        ));
    }
    if metric.unit.as_str().is_empty() {
        return Err(TelemetryError::InvalidMetricUnit("Metric unit cannot be empty".to_string()));
    }
    validate_resource(&metric.resource)
}

/// An attribute value the rules accept: a non-empty string, a string array
/// whose every element is non-empty, or any boolean or integer.
pub open spec fn value_acceptable(v: AttributeValue) -> bool {
    match v {
        AttributeValue::String(s) => s@.len() > 0,
        AttributeValue::StringArray(a) => forall|i: int| 0 <= i < a@.len() ==> (#[trigger] a@[i])@.len() > 0,
        _ => true,
    }
}

/// Resource attributes the rules accept: every key non-empty and every
/// value acceptable.
pub open spec fn attributes_acceptable(attrs: Seq<(String, AttributeValue)>) -> bool {
    forall|i: int| 0 <= i < attrs.len() ==> (#[trigger] attrs[i]).0@.len() > 0 && value_acceptable(attrs[i].1)
}

/// An attribute value is accepted exactly when it is acceptable.
pub proof fn law_attribute_value_accepted_iff_acceptable(v: AttributeValue)
    ensures
        attribute_value_problem(v) is None <==> value_acceptable(v),
{
}

/// A resource is accepted exactly when every attribute has a non-empty key
/// and an acceptable value; an empty key is reported as an invalid resource
/// attribute and a bad value as an invalid attribute value.
pub proof fn law_resource_accepted_iff_acceptable(attrs: Seq<(String, AttributeValue)>)
    ensures
        resource_problem(attrs) is None <==> attributes_acceptable(attrs),
        resource_problem(attrs) is Some ==> resource_problem(attrs)->Some_0.0 == TelemetryErrorKind::InvalidResourceAttribute
            || resource_problem(attrs)->Some_0.0 == TelemetryErrorKind::InvalidAttributeValue,
    decreases attrs.len(),
{
    if attrs.len() > 0 {
        let rest = attrs.drop_first();
        law_resource_accepted_iff_acceptable(rest);
        if attributes_acceptable(attrs) {
            assert(attrs[0].0@.len() > 0 && value_acceptable(attrs[0].1));
            assert forall|i: int| 0 <= i < rest.len() implies (#[trigger] rest[i]).0@.len() > 0 && value_acceptable(
                rest[i].1,
            ) by {
                assert(rest[i] == attrs[i + 1]);
            }
        }
        if attrs[0].0@.len() > 0 && value_acceptable(attrs[0].1) && attributes_acceptable(rest) {
            assert forall|i: int| 0 <= i < attrs.len() implies (#[trigger] attrs[i]).0@.len() > 0 && value_acceptable(
                attrs[i].1,
            ) by {
                if i > 0 {
                    assert(attrs[i] == rest[i - 1]);
                }
            }
        }
    }
}

/// A span is accepted exactly when its trace and span identifiers are not
/// all zeros, its scope and its name are not empty, and its resource is
/// acceptable.
pub proof fn law_span_accepted_iff_valid(span: Span)
    ensures
        span_problem(span) is None <==> !all_zero(span.context.trace_id@) && !all_zero(span.context.span_id@)
            && span.instrumentation_scope.name@.len() > 0 && span.name@.len() > 0 && attributes_acceptable(
            span.resource.attributes@,
        ),
{
    law_resource_accepted_iff_acceptable(span.resource.attributes@);
}

/// The checks of a span come in order: an all-zero trace identifier is
/// reported first, then an all-zero span identifier, then an empty scope
/// name, then an empty span name (`Span name cannot be empty`).
pub proof fn law_span_first_problem(span: Span)
    ensures
        all_zero(span.context.trace_id@) ==> (span_problem(span) is Some && span_problem(span)->Some_0.0 == TelemetryErrorKind::InvalidTraceId),
        !all_zero(span.context.trace_id@) && all_zero(span.context.span_id@) ==> (span_problem(span) is Some && span_problem(span)->Some_0.0 == TelemetryErrorKind::InvalidSpanId),
        !all_zero(span.context.trace_id@) && !all_zero(span.context.span_id@) && span.instrumentation_scope.name@.len()
            == 0 ==> (span_problem(span) is Some && span_problem(span)->Some_0.0 == TelemetryErrorKind::InvalidInstrumentationScopeName),
        !all_zero(span.context.trace_id@) && !all_zero(span.context.span_id@) && span.instrumentation_scope.name@.len()
            > 0 && span.name@.len() == 0 ==> span_problem(span) == Some(
            (TelemetryErrorKind::InvalidSpanName, "Span name cannot be empty"@),
        ),
{
}

/// A log record is accepted exactly when its trace and span identifiers
/// are not all zeros, its scope and its body are not empty, and its
/// resource is acceptable.
pub proof fn law_log_record_accepted_iff_valid(rec: LogRecord)
    ensures
        log_record_problem(rec) is None <==> !all_zero(rec.context.trace_id@) && !all_zero(rec.context.span_id@)
            && rec.instrumentation_scope.name@.len() > 0 && rec.body@.len() > 0 && attributes_acceptable(
            rec.resource.attributes@,
        ),
{
    law_resource_accepted_iff_acceptable(rec.resource.attributes@);
}

/// The checks of a log record come in order: trace identifier, span
/// identifier, scope name, then an empty body
/// (`Log record body cannot be empty`).
pub proof fn law_log_record_first_problem(rec: LogRecord)
    ensures
        all_zero(rec.context.trace_id@) ==> (log_record_problem(rec) is Some && log_record_problem(rec)->Some_0.0 == TelemetryErrorKind::InvalidTraceId),
        !all_zero(rec.context.trace_id@) && all_zero(rec.context.span_id@) ==> (log_record_problem(rec) is Some && log_record_problem(rec)->Some_0.0 == TelemetryErrorKind::InvalidSpanId),
        !all_zero(rec.context.trace_id@) && !all_zero(rec.context.span_id@) && rec.instrumentation_scope.name@.len()
            == 0 ==> (log_record_problem(rec) is Some && log_record_problem(rec)->Some_0.0 == TelemetryErrorKind::InvalidInstrumentationScopeName),
        !all_zero(rec.context.trace_id@) && !all_zero(rec.context.span_id@) && rec.instrumentation_scope.name@.len()
            > 0 && rec.body@.len() == 0 ==> log_record_problem(rec) == Some(
            (TelemetryErrorKind::InvalidLogBody, "Log record body cannot be empty"@),
        ),
{
}

/// A metric is accepted exactly when its scope, name, description and unit
/// are not empty and its resource is acceptable; the first empty one among
/// name, description and unit (after the scope) is the one reported.
pub proof fn law_metric_accepted_iff_valid(m: Metric)
    ensures
        metric_problem(m) is None <==> m.instrumentation_scope.name@.len() > 0 && m.name@.len() > 0
            && m.description@.len() > 0 && m.unit@.len() > 0 && attributes_acceptable(m.resource.attributes@),
        m.instrumentation_scope.name@.len() == 0 ==> (metric_problem(m) is Some && metric_problem(m)->Some_0.0 == TelemetryErrorKind::InvalidInstrumentationScopeName),
        m.instrumentation_scope.name@.len() > 0 && m.name@.len() == 0 ==> metric_problem(m) == Some(
            (TelemetryErrorKind::InvalidMetricName, "Metric name cannot be empty"@),
        ),
        m.instrumentation_scope.name@.len() > 0 && m.name@.len() > 0 && m.description@.len() == 0 ==> metric_problem(m)
            == Some((TelemetryErrorKind::InvalidMetricDescription, "Metric description cannot be empty"@)),
        m.instrumentation_scope.name@.len() > 0 && m.name@.len() > 0 && m.description@.len() > 0 && m.unit@.len() == 0
            ==> metric_problem(m) == Some((TelemetryErrorKind::InvalidMetricUnit, "Metric unit cannot be empty"@)),
{
    law_resource_accepted_iff_acceptable(m.resource.attributes@);
}

} // verus!
