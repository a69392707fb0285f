//! The system clock. Reading the time is outside work: the runtime around
//! the library implements it, and hands instants to the library as values.

use vstd::prelude::*;

verus! {

/// The production clock, backed by the system clock.
#[derive(Debug, Clone, Copy, PartialEq, Eq, Default)]
pub struct UtcClock;

} // verus!
