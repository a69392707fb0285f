//! Structured logging toolkit: domain model, formatters, context
//! propagation, console export, the emission pipeline and telemetry
//! validation, with their behaviour stated as verified contracts.

pub mod attribute;
pub mod clock;
pub mod console;
pub mod context;
pub mod emit;
pub mod emit_error;
pub mod formatter;
pub mod hex;
pub mod logger;
pub mod ids;
pub mod pipeline;
pub mod propagation;
pub mod record;
pub mod security;
pub mod severity;
pub mod telemetry;
pub mod text;
pub mod validation;
