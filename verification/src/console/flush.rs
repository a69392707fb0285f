//! Flush strategies: when the console exporter flushes its output.

use vstd::prelude::*;

verus! {

/// Decides when to flush output, from the number of writes made so far.
pub trait FlushStrategy {
    /// Whether a flush follows the write numbered `write_count` (from 0).
    spec fn flushes_after(&self, write_count: nat) -> bool;

    /// Whether shutting down flushes.
    spec fn flushes_on_shutdown(&self) -> bool;

    /// Determines if a flush should occur based on write count.
    fn should_flush(&self, write_count: usize) -> (r: bool)
        ensures
            r == self.flushes_after(write_count as nat),
    ;

    /// Determines if flushing should occur on shutdown.
    fn on_shutdown(&self) -> (r: bool)
        ensures
            r == self.flushes_on_shutdown(),
    ;
}

/// Immediate flush strategy - flushes after every write.
#[derive(Debug, Clone, Copy, PartialEq, Eq)]
pub struct ImmediateFlush;

impl FlushStrategy for ImmediateFlush {
    open spec fn flushes_after(&self, write_count: nat) -> bool {
        true
    }

    open spec fn flushes_on_shutdown(&self) -> bool {
        false
    }

    fn should_flush(&self, _write_count: usize) -> (r: bool) {
        true
    }

    fn on_shutdown(&self) -> (r: bool) {
        false
    }
}

/// On shutdown flush strategy - flushes only on shutdown.
#[derive(Debug, Clone, Copy, PartialEq, Eq)]
pub struct OnShutdownFlush;

impl FlushStrategy for OnShutdownFlush {
    open spec fn flushes_after(&self, write_count: nat) -> bool {
        false
    }

    open spec fn flushes_on_shutdown(&self) -> bool {
        true
    }

    fn should_flush(&self, _write_count: usize) -> (r: bool) {
        false
    }

    fn on_shutdown(&self) -> (r: bool) {
        true
    }
}

/// Batch flush strategy - flushes on every write whose count is a multiple
/// of the threshold.
#[derive(Debug, Clone, Copy, PartialEq, Eq)]
pub struct BatchFlush {
    threshold: usize,
}

impl BatchFlush {
    /// The threshold the strategy was made with.
    pub closed spec fn spec_threshold(&self) -> nat {
        self.threshold as nat
    }

    /// Creates a new batch flush strategy with the given threshold.
    pub fn new(threshold: usize) -> (r: Self)
        ensures
            r.spec_threshold() == threshold,
    {
        BatchFlush { threshold }
    }
}

/// `count` is a multiple of `threshold`; only 0 is a multiple of 0.
pub open spec fn is_multiple_of(count: nat, threshold: nat) -> bool {
    if threshold == 0 {
        count == 0
    } else {
        count % threshold == 0
    }
}

impl FlushStrategy for BatchFlush {
    open spec fn flushes_after(&self, write_count: nat) -> bool {
        is_multiple_of(write_count, self.spec_threshold())
    }

    open spec fn flushes_on_shutdown(&self) -> bool {
        true
    }

    fn should_flush(&self, write_count: usize) -> (r: bool) {
        if self.threshold == 0 {
            write_count == 0
        } else {
            write_count % self.threshold == 0
        }
    }

    fn on_shutdown(&self) -> (r: bool) {
        true
    }
}

} // verus!
