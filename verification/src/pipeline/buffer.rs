//! Buffering: records are held until a batch is full or a flush interval
//! has passed since the first of them was buffered.

use vstd::prelude::*;

use crate::pipeline::config::BufferingConfig;
use crate::record::LogRecord;

verus! {

/// The flush interval as the signed millisecond count the elapsed time is
/// compared with (a `u64` taken as `i64`), in nanoseconds.
pub open spec fn interval_nanos(ms: u64) -> int {
    (ms as i64) * 1_000_000
}

/// What a record `rec` arriving at `now` releases from a buffer with
/// settings `config` that holds `held`, the first of them since `start`:
/// with buffering off, the record alone; otherwise all held records and the
/// new one, once `batch_size` of them are held or the flush interval has
/// passed since the first arrived; else nothing.
pub open spec fn released_on_arrival(
    config: BufferingConfig,
    held: Seq<LogRecord>,
    start: Option<i64>,
    rec: LogRecord,
    now: i64,
) -> Option<Seq<LogRecord>> {
    if !config.enabled {
        Some(seq![rec])
    } else {
        let all = held.push(rec);
        let first = if held.len() == 0 { Some(now) } else { start };
        if all.len() >= config.batch_size {
            Some(all)
        } else {
            match first {
                Some(t) => if now - t >= interval_nanos(config.flush_interval_ms) { Some(all) } else { None },
                None => None,
            }
        }
    }
}

/// Holds records between flushes.
pub struct Buffer {
    config: BufferingConfig,
    records: Vec<LogRecord>,
    window_start: Option<i64>,
}

impl Buffer {
    /// The configuration.
    pub closed spec fn spec_config(&self) -> BufferingConfig {
        self.config
    }

    /// The records held, in arrival order.
    pub closed spec fn spec_records(&self) -> Seq<LogRecord> {
        self.records@
    }

    /// When the first of the held records arrived (nanoseconds since the
    /// UNIX epoch), if any is held.
    pub closed spec fn spec_window_start(&self) -> Option<i64> {
        self.window_start
    }

    /// With buffering off, nothing is ever held and no window is open.
    pub open spec fn wf(&self) -> bool {
        &&& !self.spec_config().enabled ==> self.spec_records().len() == 0
        &&& !self.spec_config().enabled ==> self.spec_window_start() is None
    }

    /// An empty buffer.
    pub fn new(config: BufferingConfig) -> (r: Self)
        ensures
            r.wf(),
            r.spec_config() == config,
            r.spec_records().len() == 0,
            r.spec_window_start() is None,
    {
        Buffer { config, records: Vec::new(), window_start: None }
    }

    /// Adds a record at instant `now_nanos`. With buffering off, the record
    /// comes straight back as a batch of one. Otherwise it is held (the
    /// first record held opens the window); when `batch_size` records are
    /// held they all come back as a batch and the buffer is emptied.
    pub fn add(&mut self, record: LogRecord, now_nanos: i64) -> (r: Option<Vec<LogRecord>>)
        requires
            old(self).wf(),
        ensures
            final(self).wf(),
            final(self).spec_config() == old(self).spec_config(),
            !old(self).spec_config().enabled ==> (r matches Some(b) && b@ == seq![record]
                && *final(self) == *old(self)),
            old(self).spec_config().enabled ==> {
                let held = old(self).spec_records().push(record);
                let start = if old(self).spec_records().len() == 0 {
                    Some(now_nanos)
                } else {
                    old(self).spec_window_start()
                };
                if held.len() >= old(self).spec_config().batch_size {
                    &&& r matches Some(b) && b@ == held
                    &&& final(self).spec_records().len() == 0
                    &&& final(self).spec_window_start() is None
                } else {
                    &&& r is None
                    &&& final(self).spec_records() == held
                    &&& final(self).spec_window_start() == start
                }
            },
    {
        if !self.config.enabled {
            return Some(vec![record]);
        }
        if self.records.len() == 0 {
            self.window_start = Some(now_nanos);
        }
        self.records.push(record);
        if self.records.len() >= self.config.batch_size {
            self.window_start = None;
            let mut batch: Vec<LogRecord> = Vec::new();
            std::mem::swap(&mut batch, &mut self.records);
            return Some(batch);
        }
        None
    }

    /// Flushes at instant `now_nanos` when records are held and at least
    /// the flush interval has passed since the first of them arrived: all
    /// held records come back and the buffer is emptied. Otherwise nothing
    /// changes.
    pub fn try_flush(&mut self, now_nanos: i64) -> (r: Option<Vec<LogRecord>>)
        requires
            old(self).wf(),
            old(self).spec_window_start() is Some ==> old(self).spec_config().flush_interval_ms != 0x8000_0000_0000_0000u64,
        ensures
            final(self).wf(),
            final(self).spec_config() == old(self).spec_config(),
            match old(self).spec_window_start() {
                Some(start) => if now_nanos - start >= interval_nanos(old(self).spec_config().flush_interval_ms) {
                    &&& r matches Some(b) && b@ == old(self).spec_records()
                    &&& final(self).spec_records().len() == 0
                    &&& final(self).spec_window_start() is None
                } else {
                    r is None && *final(self) == *old(self)
                },
                None => r is None && *final(self) == *old(self),
            },
    {
        let started_at = match self.window_start {
            Some(t) => t,
            None => {
                return None;
            },
        };
        let elapsed: i128 = now_nanos as i128 - started_at as i128;
        let interval_ms: i64 = self.config.flush_interval_ms as i64;
        let interval: i128 = interval_ms as i128 * 1_000_000;
        if elapsed >= interval {
            self.window_start = None;
            let mut batch: Vec<LogRecord> = Vec::new();
            std::mem::swap(&mut batch, &mut self.records);
            return Some(batch);
        }
        None
    }

    /// Takes every held record, whatever the flush conditions, and empties
    /// the buffer.
    pub fn drain(&mut self) -> (r: Vec<LogRecord>)
        ensures
            final(self).wf(),
            r@ == old(self).spec_records(),
            final(self).spec_records().len() == 0,
            final(self).spec_window_start() is None,
            final(self).spec_config() == old(self).spec_config(),
    {
        self.window_start = None;
        let mut batch: Vec<LogRecord> = Vec::new();
        std::mem::swap(&mut batch, &mut self.records);
        batch
    }
}

} // verus!
