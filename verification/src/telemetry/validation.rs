//! Validation entry points for telemetry entities, each reporting the same
//! outcome as the corresponding rule in `validators`.

use vstd::prelude::*;

use crate::telemetry::validators;
use crate::telemetry::validators::{attribute_value_problem, log_record_problem, metric_problem,
    outcome_matches, resource_problem, scope_problem, span_problem};
use crate::telemetry::{AttributeValue, InstrumentationScope, LogRecord, Metric, Resource, Span,
    TelemetryError};

verus! {

/// Validates an attribute value and returns an error if invalid.
pub fn validate_attribute_value(value: &AttributeValue) -> (r: Result<(), TelemetryError>)
    ensures
        outcome_matches(r, attribute_value_problem(*value)),
{
    validators::validate_attribute_value(value)
}

/// Validates a resource and returns an error if invalid.
pub fn validate_resource(resource: &Resource) -> (r: Result<(), TelemetryError>)
    ensures
        outcome_matches(r, resource_problem(resource.attributes@)),
{
    validators::validate_resource(resource)
}

/// Validates an instrumentation scope and returns an error if invalid.
pub fn validate_instrumentation_scope(scope: &InstrumentationScope) -> (r: Result<(), TelemetryError>)
    ensures
        outcome_matches(r, scope_problem(*scope)),
{
    validators::validate_instrumentation_scope(scope)
}

/// Validates a span and returns an error if invalid.
pub fn validate_span(span: &Span) -> (r: Result<(), TelemetryError>)
    ensures
        outcome_matches(r, span_problem(*span)),
{
    validators::validate_span(span)
}

/// Validates a log record and returns an error if invalid.
pub fn validate_log_record(log_record: &LogRecord) -> (r: Result<(), TelemetryError>)
    ensures
        outcome_matches(r, log_record_problem(*log_record)),
{
    validators::validate_log_record(log_record)
}

/// Validates a metric and returns an error if invalid.
pub fn validate_metric(metric: &Metric) -> (r: Result<(), TelemetryError>)
    ensures
        outcome_matches(r, metric_problem(*metric)),
{
    validators::validate_metric(metric)
}

} // verus!
