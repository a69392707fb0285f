//! Validation errors for structured logs.

use vstd::prelude::*;

use crate::text::push_str;

verus! {

/// Errors that can occur during log record construction.
#[derive(Debug, Clone, PartialEq, Eq, Hash)]
pub enum ValidationError {
    /// Message string is empty
    EmptyMessage,
    /// Severity level not recognized
    InvalidSeverity,
    /// Attribute name violates naming constraints
    InvalidAttributeName(String),
    /// Attribute value violates type constraints
    InvalidAttributeValue(String),
    /// A context enrichment step was refused
    EnrichmentError(String),
}

/// The human-readable message of a validation error.
pub open spec fn validation_message(e: ValidationError) -> Seq<char> {
    match e {
        ValidationError::EmptyMessage => "Message cannot be empty"@,
        ValidationError::InvalidSeverity => "Invalid severity level"@,
        ValidationError::InvalidAttributeName(name) => "Invalid attribute name: "@ + name@,
        ValidationError::InvalidAttributeValue(msg) => "Invalid attribute value: "@ + msg@,
        ValidationError::EnrichmentError(msg) => "Enrichment error: "@ + msg@,
    }
}

impl ValidationError {
    /// The error's message, as its `Display` rendered it.
    pub fn message(&self) -> (r: String)
        ensures
            r@ == validation_message(*self),
    {
        match self {
            ValidationError::EmptyMessage => "Message cannot be empty".to_string(),
            ValidationError::InvalidSeverity => "Invalid severity level".to_string(),
            ValidationError::InvalidAttributeName(name) => {
                let mut s = "Invalid attribute name: ".to_string();
                push_str(&mut s, name.as_str());
                s
            },
            ValidationError::InvalidAttributeValue(msg) => {
                let mut s = "Invalid attribute value: ".to_string();
                push_str(&mut s, msg.as_str());
                s
            },
            ValidationError::EnrichmentError(msg) => {
                let mut s = "Enrichment error: ".to_string();
                push_str(&mut s, msg.as_str());
                s
            },
        }
    }
}

} // verus!
