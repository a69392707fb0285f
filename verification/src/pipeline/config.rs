//! Configuration of the emission pipeline: whether logging is on, the level
//! threshold, the output format, sampling, redaction and buffering.

use vstd::prelude::*;

use crate::formatter::LogFormat;
use crate::severity::Severity;

verus! {

/// Level threshold of the pipeline (there is no `Fatal` threshold).
#[derive(Debug, Clone, Copy, PartialEq, Eq, Structural)]
pub enum LogLevel {
    Trace,
    Debug,
    Info,
    Warn,
    Error,
}

/// Output format as written in the logging configuration.
#[derive(Debug, Clone, Copy, PartialEq, Eq, Structural)]
pub enum ConfigLogFormat {
    Json,
    Text,
    Pretty,
    Compact,
}

/// How records are sampled.
#[derive(Debug, Clone, Copy, PartialEq, Eq, Structural)]
pub enum SamplingStrategy {
    /// Keep every record (the configuration's `None` strategy).
    KeepAll,
    /// Keep the first of every `n` records.
    EveryNth,
    /// Keep each record with a configured probability.
    Probabilistic,
    /// Keep at most `max_events_per_second` records per one-second window.
    RateLimit,
}

/// Sampling settings. The probability of the probabilistic strategy is
/// held by the caller, who draws against it.
#[derive(Debug, Clone, Copy, PartialEq, Eq, Structural)]
pub struct SamplingConfig {
    /// Sampling on at all.
    pub enabled: bool,
    /// The strategy.
    pub strategy: SamplingStrategy,
    /// The `n` of every-nth sampling.
    pub n: u32,
    /// The window budget of rate-limit sampling.
    pub max_events_per_second: u32,
}

/// Buffering settings.
#[derive(Debug, Clone, Copy, PartialEq, Eq, Structural)]
pub struct BufferingConfig {
    /// Buffering on at all.
    pub enabled: bool,
    /// Number of records that triggers a flush.
    pub batch_size: usize,
    /// Time after the first buffered record that triggers a flush.
    pub flush_interval_ms: u64,
}

/// Redaction settings.
#[derive(Debug, Clone, PartialEq, Eq)]
pub struct RedactionConfig {
    /// Redaction on at all.
    pub enabled: bool,
    /// Attribute name fragments (matched without regard to case) whose
    /// attributes are redacted.
    pub fields: Vec<String>,
}

/// Default sampling: off, keeping everything (every-nth `n` of 1, a
/// rate-limit budget of 0).
pub open spec fn default_sampling() -> SamplingConfig {
    SamplingConfig { enabled: false, strategy: SamplingStrategy::KeepAll, n: 1, max_events_per_second: 0 }
}

impl Default for SamplingConfig {
    /// Sampling off, keeping everything.
    fn default() -> (r: Self)
        ensures
            r == default_sampling(),
    {
        SamplingConfig { enabled: false, strategy: SamplingStrategy::KeepAll, n: 1, max_events_per_second: 0 }
    }
}

/// Default buffering: off, batches of one, no flush interval.
pub open spec fn default_buffering() -> BufferingConfig {
    BufferingConfig { enabled: false, batch_size: 1, flush_interval_ms: 0 }
}

impl Default for BufferingConfig {
    /// Buffering off.
    fn default() -> (r: Self)
        ensures
            r == default_buffering(),
    {
        BufferingConfig { enabled: false, batch_size: 1, flush_interval_ms: 0 }
    }
}

impl Default for RedactionConfig {
    /// Redaction off, with no fields.
    fn default() -> (r: Self)
        ensures
            !r.enabled,
            r.fields@.len() == 0,
    {
        RedactionConfig { enabled: false, fields: Vec::new() }
    }
}

/// Maps a configured level to the lowest severity that passes the filter.
pub open spec fn level_floor_of(level: LogLevel) -> Severity {
    match level {
        LogLevel::Trace => Severity::Trace,
        LogLevel::Debug => Severity::Debug,
        LogLevel::Info => Severity::Info,
        LogLevel::Warn => Severity::Warn,
        LogLevel::Error => Severity::Error,
    }
}

/// The lowest severity that passes a level threshold.
pub fn level_floor(level: LogLevel) -> (r: Severity)
    ensures
        r == level_floor_of(level),
{
    match level {
        LogLevel::Trace => Severity::Trace,
        LogLevel::Debug => Severity::Debug,
        LogLevel::Info => Severity::Info,
        LogLevel::Warn => Severity::Warn,
        LogLevel::Error => Severity::Error,
    }
}

/// The formatter format a configured format selects.
pub open spec fn mapped_format(format: ConfigLogFormat) -> LogFormat {
    match format {
        ConfigLogFormat::Json => LogFormat::Json,
        ConfigLogFormat::Text => LogFormat::Text,
        ConfigLogFormat::Pretty => LogFormat::HumanReadable,
        ConfigLogFormat::Compact => LogFormat::Logfmt,
    }
}

/// Maps a configured format to the formatter format it selects: `Json` to
/// `Json`, `Text` to `Text`, `Pretty` to `HumanReadable`, `Compact` to
/// `Logfmt`.
pub fn map_log_format(format: ConfigLogFormat) -> (r: LogFormat)
    ensures
        r == mapped_format(format),
{
    match format {
        ConfigLogFormat::Json => LogFormat::Json,
        ConfigLogFormat::Text => LogFormat::Text,
        ConfigLogFormat::Pretty => LogFormat::HumanReadable,
        ConfigLogFormat::Compact => LogFormat::Logfmt,
    }
}

/// No two configured formats select the same formatter.
pub proof fn lemma_format_mapping_injective(a: ConfigLogFormat, b: ConfigLogFormat)
    ensures
        mapped_format(a) == mapped_format(b) ==> a == b,
{
}

} // verus!
