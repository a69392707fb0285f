//! Console exporter: flush strategies, lifecycle, stream routing.

pub mod error;

pub mod flush;


pub mod lifecycle;
pub mod stream_router;
pub mod exporter;
