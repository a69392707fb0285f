//! Sampling: deciding, record by record, whether a record goes on down the
//! pipeline.

use vstd::prelude::*;

use crate::console::flush::is_multiple_of;
use crate::pipeline::config::{SamplingConfig, SamplingStrategy};

verus! {

/// Length of a rate-limit window, in nanoseconds.
pub const RATE_LIMIT_WINDOW_NANOS: i128 = 1_000_000_000;

/// `n + 1`, wrapping to 0 after `u32::MAX`.
pub open spec fn wrapping_next(n: u32) -> u32 {
    if n == u32::MAX {
        0
    } else {
        (n + 1) as u32
    }
}

/// A rate-limit decision at `now` opens a new window: at least one second
/// has passed since the current one started.
pub open spec fn opens_window(s: Sampler, now: i64) -> bool {
    now - s.spec_window_start() >= 1_000_000_000
}

/// The count of decisions already made in the window a decision at `now`
/// falls in.
pub open spec fn window_count_at(s: Sampler, now: i64) -> u32 {
    if opens_window(s, now) {
        0
    } else {
        s.spec_window_count()
    }
}

/// Whether sampler `s` keeps the next record, decided at `now` with
/// `pass` as the probabilistic draw. Disabled sampling, and the `KeepAll`
/// strategy, keep everything; probabilistic sampling keeps what the draw
/// passes; every-nth keeps a record when the count of records seen before
/// it is a multiple of `n`; rate-limit keeps a record while fewer than
/// `max_events_per_second` were decided in its window.
pub open spec fn sample_decision(s: Sampler, now: i64, pass: bool) -> bool {
    if !s.spec_config().enabled {
        true
    } else {
        match s.spec_config().strategy {
            SamplingStrategy::KeepAll => true,
            SamplingStrategy::Probabilistic => pass,
            SamplingStrategy::EveryNth => is_multiple_of(s.spec_counter() as nat, s.spec_config().n as nat),
            SamplingStrategy::RateLimit => window_count_at(s, now) < s.spec_config().max_events_per_second,
        }
    }
}

/// `t` is sampler `s` after a decision at `now`: every-nth counts the
/// record; rate-limit opens a new window when one is due and counts the
/// decision in it; otherwise nothing changes.
pub open spec fn sampled_after(s: Sampler, now: i64, t: Sampler) -> bool {
    &&& t.spec_config() == s.spec_config()
    &&& if s.spec_config().enabled && s.spec_config().strategy == SamplingStrategy::EveryNth {
        &&& t.spec_counter() == wrapping_next(s.spec_counter())
        &&& t.spec_window_start() == s.spec_window_start()
        &&& t.spec_window_count() == s.spec_window_count()
    } else if s.spec_config().enabled && s.spec_config().strategy == SamplingStrategy::RateLimit {
        &&& t.spec_counter() == s.spec_counter()
        &&& t.spec_window_start() == if opens_window(s, now) { now } else { s.spec_window_start() }
        &&& t.spec_window_count() == wrapping_next(window_count_at(s, now))
    } else {
        t == s
    }
}

/// Sampler state: the every-nth counter and the current rate-limit window
/// (start instant, in nanoseconds since the UNIX epoch, and count).
pub struct Sampler {
    config: SamplingConfig,
    every_nth_counter: u32,
    window_start: i64,
    window_count: u32,
}

impl Sampler {
    /// The configuration.
    pub closed spec fn spec_config(&self) -> SamplingConfig {
        self.config
    }

    /// Records seen by the every-nth strategy (wrapping).
    pub closed spec fn spec_counter(&self) -> u32 {
        self.every_nth_counter
    }

    /// Start of the current rate-limit window.
    pub closed spec fn spec_window_start(&self) -> i64 {
        self.window_start
    }

    /// Decisions made in the current rate-limit window (wrapping).
    pub closed spec fn spec_window_count(&self) -> u32 {
        self.window_count
    }

    /// A sampler whose first rate-limit window starts at `now_nanos`.
    pub fn new(config: SamplingConfig, now_nanos: i64) -> (r: Self)
        ensures
            r.spec_config() == config,
            r.spec_counter() == 0,
            r.spec_window_start() == now_nanos,
            r.spec_window_count() == 0,
    {
        Sampler { config, every_nth_counter: 0, window_start: now_nanos, window_count: 0 }
    }

    /// Decides whether the next record is kept, at instant `now_nanos`;
    /// `probabilistic_pass` is the caller's draw against the probabilistic
    /// rate. Disabled sampling, and the `KeepAll` strategy, keep everything.
    /// Every-nth keeps a record when the count of records seen before it is
    /// a multiple of `n`. Rate-limit opens a new window when at least one
    /// second has passed since the current one started, and keeps a record
    /// while fewer than `max_events_per_second` were decided in the window.
    pub fn should_sample(&mut self, now_nanos: i64, probabilistic_pass: bool) -> (r: bool)
        ensures
            r == sample_decision(*old(self), now_nanos, probabilistic_pass),
            sampled_after(*old(self), now_nanos, *final(self)),
    {
        if !self.config.enabled {
            return true;
        }
        match self.config.strategy {
            SamplingStrategy::KeepAll => true,
            SamplingStrategy::EveryNth => self.sample_every_nth(),
            SamplingStrategy::Probabilistic => probabilistic_pass,
            SamplingStrategy::RateLimit => self.sample_rate_limit(now_nanos),
        }
    }

    fn sample_every_nth(&mut self) -> (r: bool)
        ensures
            *final(self) == (Sampler { every_nth_counter: wrapping_next(old(self).every_nth_counter), ..*old(self) }),
            r == is_multiple_of(old(self).every_nth_counter as nat, old(self).config.n as nat),
    {
        let previous = self.every_nth_counter;
        self.every_nth_counter = if previous == u32::MAX { 0 } else { previous + 1 };
        let n = self.config.n;
        if n == 0 {
            previous == 0
        } else {
            previous % n == 0
        }
    }

    fn sample_rate_limit(&mut self, now_nanos: i64) -> (r: bool)
        ensures
            ({
                let reset = now_nanos - old(self).window_start >= 1_000_000_000;
                let count = if reset { 0 } else { old(self).window_count };
                &&& r == (count < old(self).config.max_events_per_second)
                &&& final(self).window_start == if reset { now_nanos } else { old(self).window_start }
                &&& final(self).window_count == wrapping_next(count)
                &&& final(self).every_nth_counter == old(self).every_nth_counter
                &&& final(self).config == old(self).config
            }),
    {
        let elapsed: i128 = now_nanos as i128 - self.window_start as i128;
        if elapsed >= RATE_LIMIT_WINDOW_NANOS {
            self.window_start = now_nanos;
            self.window_count = 0;
        }
        let count = self.window_count;
        self.window_count = if count == u32::MAX { 0 } else { count + 1 };
        count < self.config.max_events_per_second
    }
}

} // verus!
