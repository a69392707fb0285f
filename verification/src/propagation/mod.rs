//! W3C trace context and baggage, and their propagation across services.

pub mod baggage;
pub mod carrier;
pub mod correlation;
pub mod propagator;
pub mod trace_context;
