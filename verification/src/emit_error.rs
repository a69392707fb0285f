//! Error type for log emission failures.

use vstd::prelude::*;

use crate::text::push_str;
use crate::validation::{validation_message, ValidationError};

verus! {

/// Errors that can occur when emitting a log record.
#[derive(Debug, Clone, PartialEq, Eq)]
pub enum EmitError {
    /// Log record construction failed due to a validation problem.
    Validation(ValidationError),
    /// Emit was attempted after the logger was shut down.
    LoggerClosed,
}

/// The human-readable message of an emit error.
pub open spec fn emit_message(e: EmitError) -> Seq<char> {
    match e {
        EmitError::Validation(v) => "Emit validation error: "@ + validation_message(v),
        EmitError::LoggerClosed => "Logger is closed"@,
    }
}

impl EmitError {
    /// The error's message, as its `Display` rendered it.
    pub fn message(&self) -> (r: String)
        ensures
            r@ == emit_message(*self),
    {
        match self {
            EmitError::Validation(v) => {
                let mut s = "Emit validation error: ".to_string();
                let inner = v.message();
                push_str(&mut s, inner.as_str());
                s
            },
            EmitError::LoggerClosed => "Logger is closed".to_string(),
        }
    }

    /// The underlying validation error, if any (the error's `source`).
    pub fn source(&self) -> (r: Option<&ValidationError>)
        ensures
            match *self {
                EmitError::Validation(v) => r == Some(&v),
                EmitError::LoggerClosed => r is None,
            },
    {
        match self {
            EmitError::Validation(v) => Some(v),
            EmitError::LoggerClosed => None,
        }
    }
}

impl From<ValidationError> for EmitError {
    fn from(err: ValidationError) -> Self {
        EmitError::Validation(err)
    }
}

impl vstd::std_specs::convert::FromSpecImpl<ValidationError> for EmitError {
    open spec fn obeys_from_spec() -> bool {
        true
    }

    open spec fn from_spec(v: ValidationError) -> Self {
        EmitError::Validation(v)
    }
}

} // verus!
