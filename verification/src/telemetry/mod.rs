//! Telemetry entities (attribute values, resources, instrumentation scopes,
//! spans, log records, metrics) and the rules that validate them.

pub mod validation;
pub mod validators;

use vstd::prelude::*;

use crate::text::push_str;

verus! {

/// An attribute value of a telemetry entity.
#[derive(Debug, Clone, PartialEq, Eq)]
pub enum AttributeValue {
    /// A string
    String(String),
    /// An array of strings
    StringArray(Vec<String>),
    /// A boolean
    Bool(bool),
    /// A signed integer
    Int(i64),
}

/// The entity that produces telemetry, described by its attributes.
#[derive(Debug, Clone, PartialEq, Eq)]
pub struct Resource {
    /// Key/value attributes, in order
    pub attributes: Vec<(String, AttributeValue)>,
}

/// The library that produced a piece of telemetry.
#[derive(Debug, Clone, PartialEq, Eq)]
pub struct InstrumentationScope {
    /// Name of the instrumentation library
    pub name: String,
    /// Version of the instrumentation library
    pub version: Option<String>,
}

/// The trace and span identifiers a span or log record belongs to.
#[derive(Debug, Clone, Copy, PartialEq, Eq)]
pub struct SpanContext {
    /// Trace identifier
    pub trace_id: [u8; 16],
    /// Span identifier
    pub span_id: [u8; 8],
}

/// A span: a named, timed operation within a trace.
#[derive(Debug, Clone, PartialEq, Eq)]
pub struct Span {
    /// Identifiers of the span
    pub context: SpanContext,
    /// Name of the operation
    pub name: String,
    /// Library that produced the span
    pub instrumentation_scope: InstrumentationScope,
    /// Entity that produced the span
    pub resource: Resource,
}

/// A log record in the telemetry data model.
#[derive(Debug, Clone, PartialEq, Eq)]
pub struct LogRecord {
    /// Identifiers of the span the record belongs to
    pub context: SpanContext,
    /// The record's body
    pub body: String,
    /// Library that produced the record
    pub instrumentation_scope: InstrumentationScope,
    /// Entity that produced the record
    pub resource: Resource,
}

/// A metric stream description.
#[derive(Debug, Clone, PartialEq, Eq)]
pub struct Metric {
    /// Name of the metric
    pub name: String,
    /// Description of the metric
    pub description: String,
    /// Unit of the metric
    pub unit: String,
    /// Library that produced the metric
    pub instrumentation_scope: InstrumentationScope,
    /// Entity that produced the metric
    pub resource: Resource,
}

/// Which kind of telemetry error.
#[derive(Debug, Clone, Copy, PartialEq, Eq, Structural)]
pub enum TelemetryErrorKind {
    InvalidAttributeValue,
    InvalidTraceId,
    InvalidSpanId,
    InvalidCorrelationId,
    InvalidResourceAttribute,
    InvalidInstrumentationScopeName,
    InvalidSpanName,
    InvalidLogBody,
    InvalidMetricName,
    InvalidMetricUnit,
    InvalidMetricDescription,
    MissingRequiredField,
}

/// An error that can occur during telemetry operations.
#[derive(Debug, Clone, PartialEq)]
pub enum TelemetryError {
    /// An invalid attribute value was provided
    InvalidAttributeValue(String),
    /// An invalid trace ID was provided
    InvalidTraceId(String),
    /// An invalid span ID was provided
    InvalidSpanId(String),
    /// An invalid correlation ID was provided
    InvalidCorrelationId(String),
    /// An invalid resource attribute was provided
    InvalidResourceAttribute(String),
    /// An invalid instrumentation scope name was provided
    InvalidInstrumentationScopeName(String),
    /// An invalid span name was provided
    InvalidSpanName(String),
    /// An invalid log record body was provided
    InvalidLogBody(String),
    /// An invalid metric name was provided
    InvalidMetricName(String),
    /// An invalid metric unit was provided
    InvalidMetricUnit(String),
    /// An invalid metric description was provided
    InvalidMetricDescription(String),
    /// A required field was missing
    MissingRequiredField(String),
}

impl View for TelemetryError {
    type V = (TelemetryErrorKind, Seq<char>);

    open spec fn view(&self) -> (TelemetryErrorKind, Seq<char>) {
        match self {
            TelemetryError::InvalidAttributeValue(m) => (TelemetryErrorKind::InvalidAttributeValue, m@),
            TelemetryError::InvalidTraceId(m) => (TelemetryErrorKind::InvalidTraceId, m@),
            TelemetryError::InvalidSpanId(m) => (TelemetryErrorKind::InvalidSpanId, m@),
            TelemetryError::InvalidCorrelationId(m) => (TelemetryErrorKind::InvalidCorrelationId, m@),
            TelemetryError::InvalidResourceAttribute(m) => (TelemetryErrorKind::InvalidResourceAttribute, m@),
            TelemetryError::InvalidInstrumentationScopeName(m) => (
                TelemetryErrorKind::InvalidInstrumentationScopeName,
                m@,
            ),
            TelemetryError::InvalidSpanName(m) => (TelemetryErrorKind::InvalidSpanName, m@),
            TelemetryError::InvalidLogBody(m) => (TelemetryErrorKind::InvalidLogBody, m@),
            TelemetryError::InvalidMetricName(m) => (TelemetryErrorKind::InvalidMetricName, m@),
            TelemetryError::InvalidMetricUnit(m) => (TelemetryErrorKind::InvalidMetricUnit, m@),
            TelemetryError::InvalidMetricDescription(m) => (TelemetryErrorKind::InvalidMetricDescription, m@),
            TelemetryError::MissingRequiredField(m) => (TelemetryErrorKind::MissingRequiredField, m@),
        }
    }
}

/// The text that names each kind of error in its display form.
pub open spec fn telemetry_kind_prefix(k: TelemetryErrorKind) -> Seq<char> {
    match k {
        TelemetryErrorKind::InvalidAttributeValue => "Invalid attribute value: "@,
        TelemetryErrorKind::InvalidTraceId => "Invalid trace ID: "@,
        TelemetryErrorKind::InvalidSpanId => "Invalid span ID: "@,
        TelemetryErrorKind::InvalidCorrelationId => "Invalid correlation ID: "@,
        TelemetryErrorKind::InvalidResourceAttribute => "Invalid resource attribute: "@,
        TelemetryErrorKind::InvalidInstrumentationScopeName => "Invalid instrumentation scope name: "@,
        TelemetryErrorKind::InvalidSpanName => "Invalid span name: "@,
        TelemetryErrorKind::InvalidLogBody => "Invalid log body: "@,
        TelemetryErrorKind::InvalidMetricName => "Invalid metric name: "@,
        TelemetryErrorKind::InvalidMetricUnit => "Invalid metric unit: "@,
        TelemetryErrorKind::InvalidMetricDescription => "Invalid metric description: "@,
        TelemetryErrorKind::MissingRequiredField => "Missing required field: "@,
    }
}

impl TelemetryError {
    /// The display text: the kind's prefix followed by the message.
    pub fn message(&self) -> (r: String)
        ensures
            r@ == telemetry_kind_prefix(self@.0) + self@.1,
    {
        let (prefix, m) = match self {
            TelemetryError::InvalidAttributeValue(m) => ("Invalid attribute value: ", m),
            TelemetryError::InvalidTraceId(m) => ("Invalid trace ID: ", m),
            TelemetryError::InvalidSpanId(m) => ("Invalid span ID: ", m),
            TelemetryError::InvalidCorrelationId(m) => ("Invalid correlation ID: ", m),
            TelemetryError::InvalidResourceAttribute(m) => ("Invalid resource attribute: ", m),
            TelemetryError::InvalidInstrumentationScopeName(m) => (
                "Invalid instrumentation scope name: ",
                m,
            ),
            TelemetryError::InvalidSpanName(m) => ("Invalid span name: ", m),
            TelemetryError::InvalidLogBody(m) => ("Invalid log body: ", m),
            TelemetryError::InvalidMetricName(m) => ("Invalid metric name: ", m),
            TelemetryError::InvalidMetricUnit(m) => ("Invalid metric unit: ", m),
            TelemetryError::InvalidMetricDescription(m) => ("Invalid metric description: ", m),
            TelemetryError::MissingRequiredField(m) => ("Missing required field: ", m),
        };
        let mut out = prefix.to_string();
        push_str(&mut out, m.as_str());
        out
    }
}

} // verus!
