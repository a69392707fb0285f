//! The logging interface callers write against.

use vstd::prelude::*;

use crate::attribute::LogAttribute;
use crate::emit_error::EmitError;
use crate::severity::Severity;

verus! {

/// A named logger. Implementations decide how records are emitted; the
/// per-level methods all go through `log` with their level.
pub trait Logger: Send + Sync {
    /// The logger's name.
    fn name(&self) -> &str;

    /// Emits a record with the given severity, message and attributes.
    fn log(&self, severity: Severity, message: &str, attributes: &[LogAttribute]) -> Result<(), EmitError>;

    /// `log` at `Trace`.
    fn trace(&self, message: &str, attributes: &[LogAttribute]) -> (r: Result<(), EmitError>)
        ensures
            call_ensures(Self::log, (self, Severity::Trace, message, attributes), r),
    {
        self.log(Severity::Trace, message, attributes)
    }

    /// `log` at `Debug`.
    fn debug(&self, message: &str, attributes: &[LogAttribute]) -> (r: Result<(), EmitError>)
        ensures
            call_ensures(Self::log, (self, Severity::Debug, message, attributes), r),
    {
        self.log(Severity::Debug, message, attributes)
    }

    /// `log` at `Info`.
    fn info(&self, message: &str, attributes: &[LogAttribute]) -> (r: Result<(), EmitError>)
        ensures
            call_ensures(Self::log, (self, Severity::Info, message, attributes), r),
    {
        self.log(Severity::Info, message, attributes)
    }

    /// `log` at `Warn`.
    fn warn(&self, message: &str, attributes: &[LogAttribute]) -> (r: Result<(), EmitError>)
        ensures
            call_ensures(Self::log, (self, Severity::Warn, message, attributes), r),
    {
        self.log(Severity::Warn, message, attributes)
    }

    /// `log` at `Error`.
    fn error(&self, message: &str, attributes: &[LogAttribute]) -> (r: Result<(), EmitError>)
        ensures
            call_ensures(Self::log, (self, Severity::Error, message, attributes), r),
    {
        self.log(Severity::Error, message, attributes)
    }

    /// `log` at `Fatal`.
    fn fatal(&self, message: &str, attributes: &[LogAttribute]) -> (r: Result<(), EmitError>)
        ensures
            call_ensures(Self::log, (self, Severity::Fatal, message, attributes), r),
    {
        self.log(Severity::Fatal, message, attributes)
    }
}

} // verus!
