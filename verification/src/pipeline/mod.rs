//! The emission pipeline: enabled gate, level filter, sampling, redaction,
//! buffering, formatting and dispatch to the console exporter.

pub mod buffer;
pub mod config;
pub mod logger;
pub mod redaction;
pub mod rotation;
pub mod sampling;
