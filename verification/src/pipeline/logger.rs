//! The logger behind the pipeline: each record passes the enabled gate,
//! the level filter, sampling, redaction and buffering, then every batch
//! released is formatted and exported to the console.

use vstd::prelude::*;

use crate::attribute::{LogAttribute, Timestamp};
use crate::console::error::ExportError;
use crate::console::exporter::ConsoleExporterImpl;
use crate::console::flush::{FlushStrategy, OnShutdownFlush};
use crate::console::lifecycle::LifecycleState;
use crate::console::stream_router::{lemma_memory_writer_record, routed_outcome, stream_for, LevelStream, LevelStreamMapping,
    LineWriter, MemoryWriter};
use crate::context::LogContext;
use crate::formatter::text::ctx_opt;
use crate::formatter::{format_outcome, format_record, LogFormat};
use crate::pipeline::buffer::{released_on_arrival, Buffer};
use crate::pipeline::config::{default_buffering, default_sampling, level_floor, level_floor_of, map_log_format,
    mapped_format, BufferingConfig, ConfigLogFormat, LogLevel, RedactionConfig, SamplingConfig};
use crate::pipeline::redaction::{redaction_of, Redactor};
use crate::pipeline::sampling::{sample_decision, sampled_after, Sampler};
use crate::record::LogRecord;
use crate::severity::{severity_rank, Severity};
use crate::text::{join, join_strings, push_str, strings_view};

verus! {

/// Settings of the whole pipeline.
#[derive(Debug, Clone, PartialEq, Eq)]
pub struct LoggingConfig {
    /// Logging on at all.
    pub enabled: bool,
    /// Level threshold.
    pub level: LogLevel,
    /// Output format.
    pub format: ConfigLogFormat,
    /// Sampling settings.
    pub sampling: SamplingConfig,
    /// Buffering settings.
    pub buffering: BufferingConfig,
    /// Redaction settings.
    pub redact: RedactionConfig,
}

impl Default for LoggingConfig {
    /// Logging on, every level, JSON output, and sampling, buffering and
    /// redaction all off (each with its own default settings).
    fn default() -> (r: Self)
        ensures
            r.enabled,
            r.level == LogLevel::Trace,
            r.format == ConfigLogFormat::Json,
            r.sampling == default_sampling(),
            r.buffering == default_buffering(),
            r.redact.enabled == false && r.redact.fields@.len() == 0,
    {
        LoggingConfig {
            enabled: true,
            level: LogLevel::Trace,
            format: ConfigLogFormat::Json,
            sampling: SamplingConfig::default(),
            buffering: BufferingConfig::default(),
            redact: RedactionConfig::default(),
        }
    }
}

/// Failures of the pipeline.
#[derive(Debug, Clone, PartialEq, Eq)]
pub enum PipelineError {
    /// Initializing failed, or records could not be delivered.
    InitializationFailed(String),
    /// Flushing failed.
    FlushFailed(String),
    /// Shutting down failed.
    ShutdownFailed(String),
}

impl PipelineError {
    /// The message the error carries.
    pub fn message(&self) -> (r: String)
        ensures
            r@ == match self {
                PipelineError::InitializationFailed(m) => m@,
                PipelineError::FlushFailed(m) => m@,
                PipelineError::ShutdownFailed(m) => m@,
            },
    {
        match self {
            PipelineError::InitializationFailed(m) => m.clone(),
            PipelineError::FlushFailed(m) => m.clone(),
            PipelineError::ShutdownFailed(m) => m.clone(),
        }
    }
}

/// A record at `severity` passes the filter of threshold `level`.
pub open spec fn passes_level(severity: Severity, level: LogLevel) -> bool {
    severity_rank(severity) >= severity_rank(level_floor_of(level))
}

/// A fatal record passes every level threshold.
pub proof fn lemma_fatal_passes_every_level(level: LogLevel)
    ensures
        passes_level(Severity::Fatal, level),
{
}

/// The level filter is monotone: a record at least as severe as one that
/// passes a threshold passes it too.
pub proof fn lemma_level_filter_monotone(a: Severity, b: Severity, level: LogLevel)
    requires
        passes_level(a, level),
        severity_rank(a) <= severity_rank(b),
    ensures
        passes_level(b, level),
{
}

/// Each threshold lets through exactly its own severity and the more
/// severe ones: `Trace` everything, `Debug` all but `Trace`, `Info` from
/// `Info` up, `Warn` from `Warn` up, `Error` only `Error` and `Fatal`.
pub proof fn law_level_threshold_table(s: Severity)
    ensures
        passes_level(s, LogLevel::Trace),
        passes_level(s, LogLevel::Debug) <==> s != Severity::Trace,
        passes_level(s, LogLevel::Info) <==> s != Severity::Trace && s != Severity::Debug,
        passes_level(s, LogLevel::Warn) <==> s == Severity::Warn || s == Severity::Error || s == Severity::Fatal,
        passes_level(s, LogLevel::Error) <==> s == Severity::Error || s == Severity::Fatal,
{
}

/// The lines that formatting `batch` in `format` (with context `ctx`)
/// sends to the console under `mapping`: each record that formats, with
/// the stream its severity maps to, in order.
pub open spec fn dispatch_lines(
    format: LogFormat,
    batch: Seq<LogRecord>,
    ctx: Option<LogContext>,
    mapping: LevelStreamMapping,
) -> Seq<(LevelStream, Seq<char>)>
    decreases batch.len(),
{
    if batch.len() == 0 {
        Seq::empty()
    } else {
        let rest = dispatch_lines(format, batch.drop_last(), ctx, mapping);
        match format_outcome(format, batch.last(), ctx) {
            Ok(t) => rest.push((stream_for(mapping, batch.last().spec_severity()), t)),
            Err(_) => rest,
        }
    }
}

/// The lines handed to a writer so far, in order.
pub open spec fn handed_lines<W: LineWriter>(w: W) -> Seq<Seq<char>> {
    w.handed().map_values(|p: (Seq<char>, Option<Seq<char>>)| p.0)
}

/// Every entry of record `h1` past the first `h0.len()` (those of `h0`)
/// is a line the writer took without error.
pub open spec fn took_all(
    h0: Seq<(Seq<char>, Option<Seq<char>>)>,
    h1: Seq<(Seq<char>, Option<Seq<char>>)>,
) -> bool {
    forall|j: int| h0.len() <= j < h1.len() ==> (#[trigger] h1[j]).1 is None
}

/// One more entry keeps every new entry error-free exactly when the added
/// entry is.
proof fn lemma_took_all_step(
    h0: Seq<(Seq<char>, Option<Seq<char>>)>,
    h: Seq<(Seq<char>, Option<Seq<char>>)>,
    h1: Seq<(Seq<char>, Option<Seq<char>>)>,
)
    requires
        h1.len() == h.len() + 1,
        h1.drop_last() == h,
        h0.len() <= h.len(),
    ensures
        took_all(h0, h1) <==> took_all(h0, h) && h1.last().1 is None,
{
    if took_all(h0, h) && h1.last().1 is None {
        assert forall|j: int| h0.len() <= j < h1.len() implies (#[trigger] h1[j]).1 is None by {
            if j < h.len() {
                assert(h1[j] == h[j]);
            }
        }
    }
    if took_all(h0, h1) {
        assert forall|j: int| h0.len() <= j < h.len() implies (#[trigger] h[j]).1 is None by {
            assert(h1[j] == h[j]);
        }
        assert(h1[h.len() as int] == h1.last());
    }
}

/// The lines of `sent` that go to stream `s`, in order.
pub open spec fn lines_to(sent: Seq<(LevelStream, Seq<char>)>, s: LevelStream) -> Seq<Seq<char>>
    decreases sent.len(),
{
    if sent.len() == 0 {
        Seq::empty()
    } else if sent.last().0 == s {
        lines_to(sent.drop_last(), s).push(sent.last().1)
    } else {
        lines_to(sent.drop_last(), s)
    }
}

proof fn lemma_lines_to_push(sent: Seq<(LevelStream, Seq<char>)>, item: (LevelStream, Seq<char>), s: LevelStream)
    ensures
        lines_to(sent.push(item), s) == if item.0 == s {
            lines_to(sent, s).push(item.1)
        } else {
            lines_to(sent, s)
        },
{
    assert(sent.push(item).drop_last() =~= sent);
}

/// Exporter `e1` (with result `r`) is what formatting and exporting
/// `batch` makes of `e0`: the lifecycle state and mapping are kept; a
/// running exporter hands every line that formats, in order, to the writer
/// of the stream its record's severity maps to, and one not running is left
/// as it was. The result is `Ok` exactly when every record formats and every
/// line sent was accepted (for a running exporter: when every record
/// formats and both writers took every new line without error); otherwise
/// it carries the failure report of the batch.
pub open spec fn dispatched<S: FlushStrategy, W: LineWriter>(
    e0: ConsoleExporterImpl<S, W>,
    e1: ConsoleExporterImpl<S, W>,
    format: LogFormat,
    batch: Seq<LogRecord>,
    ctx: Option<LogContext>,
    r: Result<(), PipelineError>,
) -> bool {
    let mapping = e0.spec_router().spec_mapping();
    &&& e1.spec_state() == e0.spec_state()
    &&& e1.spec_router().spec_mapping() == mapping
    &&& e0.spec_state() == LifecycleState::Running ==> e1.spec_router().spec_attempted()
        == e0.spec_router().spec_attempted() + dispatch_lines(format, batch, ctx, mapping)
    &&& e0.spec_state() == LifecycleState::Running ==> handed_lines(e1.spec_router().spec_stdout()) == handed_lines(
        e0.spec_router().spec_stdout(),
    ) + lines_to(dispatch_lines(format, batch, ctx, mapping), LevelStream::Stdout)
    &&& e0.spec_state() == LifecycleState::Running ==> handed_lines(e1.spec_router().spec_stderr()) == handed_lines(
        e0.spec_router().spec_stderr(),
    ) + lines_to(dispatch_lines(format, batch, ctx, mapping), LevelStream::Stderr)
    &&& e0.spec_state() != LifecycleState::Running ==> e1.spec_router() == e0.spec_router()
    &&& e0.spec_state() == LifecycleState::Running && (forall|i: int|
        0 <= i < batch.len() ==> #[trigger] format_outcome(format, batch[i], ctx) is Ok) && took_all(
        e0.spec_router().spec_stdout().handed(),
        e1.spec_router().spec_stdout().handed(),
    ) && took_all(e0.spec_router().spec_stderr().handed(), e1.spec_router().spec_stderr().handed()) ==> r is Ok
    &&& (r is Ok <==> (forall|i: int| 0 <= i < batch.len() ==> #[trigger] format_outcome(format, batch[i], ctx) is Ok)
        && e1.spec_router().spec_delivered().len() == e0.spec_router().spec_delivered().len() + batch.len())
    &&& r is Err ==> exists|outs: Seq<Option<Seq<char>>>| #[trigger] failures_report(
        r,
        outs,
        format,
        batch,
        ctx,
        e0.spec_state(),
    )
}

/// What a record of a batch leaves in the failure report: the formatting
/// error's message when it does not format; otherwise, for a running
/// exporter, nothing when the writer took its line or `console: I/O
/// error: ` and the writer's message when it refused it; for an exporter
/// that is not running, the lifecycle refusal.
pub open spec fn record_failure(
    format: LogFormat,
    rec: LogRecord,
    ctx: Option<LogContext>,
    state: LifecycleState,
    o: Option<Seq<char>>,
) -> bool {
    match format_outcome(format, rec, ctx) {
        Err(m) => o == Some("value rendering failed: "@ + m),
        Ok(_) => if state == LifecycleState::Running {
            o is None || exists|w: Seq<char>| o == Some(#[trigger] io_failure_text(w))
        } else {
            o == Some("console: lifecycle error: Exporter is not running"@)
        },
    }
}

/// The failure text of a line the writer refused with message `w`.
pub open spec fn io_failure_text(w: Seq<char>) -> Seq<char> {
    "console: I/O error: "@ + w
}

/// The failure texts among per-record outcomes, in order.
pub open spec fn reported(outs: Seq<Option<Seq<char>>>) -> Seq<Seq<char>>
    decreases outs.len(),
{
    if outs.len() == 0 {
        Seq::empty()
    } else {
        match outs.last() {
            Some(t) => reported(outs.drop_last()).push(t),
            None => reported(outs.drop_last()),
        }
    }
}

/// `r` is the failure report of a batch, exported while the exporter was in
/// `state`, whose records left `outs`: one outcome per record, as
/// `record_failure` says, and the error's message is the failure texts
/// joined by `; `.
pub open spec fn failures_report(
    r: Result<(), PipelineError>,
    outs: Seq<Option<Seq<char>>>,
    format: LogFormat,
    batch: Seq<LogRecord>,
    ctx: Option<LogContext>,
    state: LifecycleState,
) -> bool {
    &&& outs.len() == batch.len()
    &&& forall|i: int|
        0 <= i < batch.len() ==> #[trigger] record_failure(
            format,
            batch[i],
            ctx,
            state,
            outs[i],
        )
    &&& r matches Err(PipelineError::InitializationFailed(m)) && m@ == join(reported(outs), "; "@)
}

/// In-memory writers never fail, so a running exporter over them takes
/// every line: formatting and exporting a batch succeeds exactly when every
/// record of it formats.
pub proof fn law_dispatch_to_memory_writers<S: FlushStrategy>(
    e0: ConsoleExporterImpl<S, MemoryWriter>,
    e1: ConsoleExporterImpl<S, MemoryWriter>,
    format: LogFormat,
    batch: Seq<LogRecord>,
    ctx: Option<LogContext>,
    r: Result<(), PipelineError>,
)
    requires
        e0.spec_state() == LifecycleState::Running,
        dispatched(e0, e1, format, batch, ctx, r),
    ensures
        r is Ok <==> forall|i: int| 0 <= i < batch.len() ==> #[trigger] format_outcome(format, batch[i], ctx) is Ok,
{
    lemma_memory_writer_record(e1.spec_router().spec_stdout());
    lemma_memory_writer_record(e1.spec_router().spec_stderr());
    let hs = e1.spec_router().spec_stdout().handed();
    let he = e1.spec_router().spec_stderr().handed();
    assert(took_all(e0.spec_router().spec_stdout().handed(), hs));
    assert(took_all(e0.spec_router().spec_stderr().handed(), he));
}

/// The logging pipeline over a console exporter.
pub struct KITLogger<S: FlushStrategy, W: LineWriter> {
    exporter: ConsoleExporterImpl<S, W>,
    format: LogFormat,
    enabled: bool,
    level: LogLevel,
    buffering_enabled: bool,
    sampler: Sampler,
    redactor: Redactor,
    buffer: Buffer,
    output_ids: Vec<String>,
}

impl<S: FlushStrategy, W: LineWriter> KITLogger<S, W> {
    /// The exporter.
    pub closed spec fn spec_exporter(&self) -> ConsoleExporterImpl<S, W> {
        self.exporter
    }

    /// The formatter's format.
    pub closed spec fn spec_format(&self) -> LogFormat {
        self.format
    }

    /// Logging is on.
    pub closed spec fn spec_enabled(&self) -> bool {
        self.enabled
    }

    /// The level threshold.
    pub closed spec fn spec_level(&self) -> LogLevel {
        self.level
    }

    /// Buffering is on.
    pub closed spec fn spec_buffering_enabled(&self) -> bool {
        self.buffering_enabled
    }

    /// The sampler.
    pub closed spec fn spec_sampler(&self) -> Sampler {
        self.sampler
    }

    /// The buffer.
    pub closed spec fn spec_buffer(&self) -> Buffer {
        self.buffer
    }

    /// The redactor.
    pub closed spec fn spec_redactor(&self) -> Redactor {
        self.redactor
    }

    /// With buffering on, the flush interval cannot make the buffer's time
    /// check panic; the buffering flag is the buffer's, and the console is
    /// the one output.
    pub closed spec fn wf(&self) -> bool {
        &&& self.buffer.spec_config().enabled ==> self.buffer.spec_config().flush_interval_ms != 0x8000_0000_0000_0000u64
        &&& self.buffering_enabled == self.buffer.spec_config().enabled
        &&& self.buffer.wf()
        &&& self.output_ids@.len() == 1
        &&& self.output_ids@[0]@ == "console"@
    }

    /// Builds a pipeline from `config` over `exporter`, formatting records
    /// in `format`; the sampler's first window starts at `now_nanos`. Only
    /// a console output is registered.
    pub fn build(config: LoggingConfig, exporter: ConsoleExporterImpl<S, W>, format: LogFormat, now_nanos: i64) -> (r:
        Self)
        requires
            config.buffering.enabled ==> config.buffering.flush_interval_ms != 0x8000_0000_0000_0000u64,
        ensures
            r.wf(),
            r.spec_exporter() == exporter,
            r.spec_format() == format,
            r.spec_enabled() == config.enabled,
            r.spec_level() == config.level,
            r.spec_buffering_enabled() == config.buffering.enabled,
            r.spec_sampler().spec_config() == config.sampling,
            r.spec_sampler().spec_counter() == 0,
            r.spec_sampler().spec_window_start() == now_nanos,
            r.spec_sampler().spec_window_count() == 0,
            r.spec_redactor().spec_config() == config.redact,
            r.spec_buffer().spec_config() == config.buffering,
            r.spec_buffer().spec_records().len() == 0,
            r.spec_buffer().spec_window_start() is None,
    {
        let enabled = config.enabled;
        let level = config.level;
        let buffering_enabled = config.buffering.enabled;
        let sampler = Sampler::new(config.sampling, now_nanos);
        let redactor = Redactor::new(config.redact);
        let buffer = Buffer::new(config.buffering);
        let mut output_ids: Vec<String> = Vec::new();
        output_ids.push("console".to_string());
        KITLogger {
            exporter,
            format,
            enabled,
            level,
            buffering_enabled,
            sampler,
            redactor,
            buffer,
            output_ids,
        }
    }

    /// A pipeline with the default configuration over `exporter`.
    pub fn with_exporter_and_format(exporter: ConsoleExporterImpl<S, W>, format: LogFormat, now_nanos: i64) -> (r:
        Self)
        ensures
            r.wf(),
            r.spec_exporter() == exporter,
            r.spec_format() == format,
            r.spec_enabled(),
            r.spec_level() == LogLevel::Trace,
            !r.spec_buffering_enabled(),
            !r.spec_sampler().spec_config().enabled,
            !r.spec_redactor().spec_config().enabled,
    {
        Self::build(LoggingConfig::default(), exporter, format, now_nanos)
    }

    /// A pipeline built from `config` over `exporter`, formatting records
    /// in the format the configuration selects.
    pub fn from_logging_config_with_exporter(config: LoggingConfig, exporter: ConsoleExporterImpl<S, W>, now_nanos: i64)
        -> (r: Self)
        requires
            config.buffering.enabled ==> config.buffering.flush_interval_ms != 0x8000_0000_0000_0000u64,
        ensures
            r.wf(),
            r.spec_exporter() == exporter,
            r.spec_format() == mapped_format(config.format),
            r.spec_enabled() == config.enabled,
            r.spec_level() == config.level,
            r.spec_buffering_enabled() == config.buffering.enabled,
            r.spec_sampler().spec_config() == config.sampling,
            r.spec_redactor().spec_config() == config.redact,
            r.spec_buffer().spec_config() == config.buffering,
            r.spec_buffer().spec_records().len() == 0,
    {
        let format = map_log_format(config.format);
        Self::build(config, exporter, format, now_nanos)
    }

    /// The identifiers of the registered outputs: only `console`.
    pub fn registered_output_ids(&self) -> (r: &[String])
        requires
            self.wf(),
        ensures
            r@.len() == 1,
            r@[0]@ == "console"@,
    {
        self.output_ids.as_slice()
    }

    /// Initializes the console exporter.
    pub fn init(&mut self) -> (r: Result<(), PipelineError>)
        requires
            old(self).wf(),
        ensures
            final(self).wf(),
            old(self).spec_exporter().spec_state() == crate::console::lifecycle::LifecycleState::Uninitialized
                ==> r is Ok && final(self).spec_exporter().spec_state()
                == crate::console::lifecycle::LifecycleState::Running,
            old(self).spec_exporter().spec_state() != crate::console::lifecycle::LifecycleState::Uninitialized
                ==> r is Err,
            final(self).spec_buffer() == old(self).spec_buffer(),
            final(self).spec_sampler() == old(self).spec_sampler(),
            final(self).spec_format() == old(self).spec_format(),
            final(self).spec_enabled() == old(self).spec_enabled(),
            final(self).spec_level() == old(self).spec_level(),
            final(self).spec_redactor() == old(self).spec_redactor(),
            final(self).spec_exporter().spec_router() == old(self).spec_exporter().spec_router(),
    {
        match self.exporter.init() {
            Ok(()) => Ok(()),
            Err(e) => Err(PipelineError::InitializationFailed(e.message())),
        }
    }

    /// Sends one formatted line to the console output.
    fn dispatch(&mut self, formatted: &str, severity: Severity) -> (r: Result<(), PipelineError>)
        requires
            old(self).wf(),
        ensures
            final(self).wf(),
            final(self).spec_buffer() == old(self).spec_buffer(),
            final(self).spec_sampler() == old(self).spec_sampler(),
            final(self).spec_format() == old(self).spec_format(),
            final(self).spec_enabled() == old(self).spec_enabled(),
            final(self).spec_level() == old(self).spec_level(),
            final(self).spec_buffering_enabled() == old(self).spec_buffering_enabled(),
            final(self).spec_redactor() == old(self).spec_redactor(),
            final(self).spec_exporter().spec_state() == old(self).spec_exporter().spec_state(),
            final(self).spec_exporter().spec_router().spec_mapping() == old(self).spec_exporter().spec_router().spec_mapping(),
            old(self).spec_exporter().spec_state() == LifecycleState::Running ==> {
                let e0 = old(self).spec_exporter().spec_router();
                let e1 = final(self).spec_exporter().spec_router();
                &&& e1.spec_attempted() == e0.spec_attempted().push((stream_for(e0.spec_mapping(), severity), formatted@))
                &&& r is Ok ==> e1.spec_delivered() == e0.spec_delivered().push((stream_for(e0.spec_mapping(), severity), formatted@))
                &&& r is Err ==> e1.spec_delivered() == e0.spec_delivered()
                &&& stream_for(e0.spec_mapping(), severity) == LevelStream::Stdout ==> handed_lines(e1.spec_stdout())
                    == handed_lines(e0.spec_stdout()).push(formatted@) && e1.spec_stderr() == e0.spec_stderr()
                    && e1.spec_stdout().handed().drop_last() == e0.spec_stdout().handed()
                    && (r is Ok <==> e1.spec_stdout().handed().last().1 is None)
                &&& stream_for(e0.spec_mapping(), severity) == LevelStream::Stderr ==> handed_lines(e1.spec_stderr())
                    == handed_lines(e0.spec_stderr()).push(formatted@) && e1.spec_stdout() == e0.spec_stdout()
                    && e1.spec_stderr().handed().drop_last() == e0.spec_stderr().handed()
                    && (r is Ok <==> e1.spec_stderr().handed().last().1 is None)
            },
            old(self).spec_exporter().spec_state() != LifecycleState::Running ==> r is Err
                && final(self).spec_exporter().spec_router() == old(self).spec_exporter().spec_router(),
            r is Err ==> (r matches Err(PipelineError::InitializationFailed(t)) && if old(self).spec_exporter().spec_state()
                == LifecycleState::Running {
                exists|w: Seq<char>| t@ == #[trigger] io_failure_text(w)
            } else {
                t@ == "console: lifecycle error: Exporter is not running"@
            }),
    {
        let ghost e0 = self.spec_exporter().spec_router();
        let res = self.exporter.export(formatted, severity);
        proof {
            let e1 = self.spec_exporter().spec_router();
            let f = |p: (Seq<char>, Option<Seq<char>>)| p.0;
            assert(e0.spec_stdout().handed().push(routed_outcome(formatted@, res)).map_values(f) =~= e0.spec_stdout().handed().map_values(f).push(formatted@));
            assert(e0.spec_stderr().handed().push(routed_outcome(formatted@, res)).map_values(f) =~= e0.spec_stderr().handed().map_values(f).push(formatted@));
        }
        match res {
            Ok(()) => Ok(()),
            Err(e) => {
                let mut m = "console: ".to_string();
                let em = e.message();
                push_str(&mut m, em.as_str());
                proof {
                    reveal_strlit("console: ");
                    reveal_strlit("console: I/O error: ");
                    reveal_strlit("console: lifecycle error: Exporter is not running");
                    reveal_strlit("I/O error: ");
                    reveal_strlit("lifecycle error: ");
                    reveal_strlit("Exporter is not running");
                    match e {
                        ExportError::Io(w) => {
                            assert(m@ =~= io_failure_text(w@));
                        },
                        ExportError::Lifecycle(l) => {
                            assert(m@ =~= "console: "@ + "lifecycle error: "@ + l@);
                        },
                        _ => {},
                    }
                }
                Err(PipelineError::InitializationFailed(m))
            },
        }
    }

    /// Formats and exports every record of `batch`, going on after a
    /// failure; the failures' messages are reported together, joined by
    /// `; `. The context is used only when buffering is off.
    fn format_and_dispatch(&mut self, batch: &Vec<LogRecord>, context: Option<&LogContext>) -> (r: Result<
        (),
        PipelineError,
    >)
        requires
            old(self).wf(),
        ensures
            final(self).wf(),
            final(self).spec_buffer() == old(self).spec_buffer(),
            final(self).spec_sampler() == old(self).spec_sampler(),
            final(self).spec_format() == old(self).spec_format(),
            final(self).spec_enabled() == old(self).spec_enabled(),
            final(self).spec_level() == old(self).spec_level(),
            final(self).spec_buffering_enabled() == old(self).spec_buffering_enabled(),
            final(self).spec_redactor() == old(self).spec_redactor(),
            dispatched(
                old(self).spec_exporter(),
                final(self).spec_exporter(),
                old(self).spec_format(),
                batch@,
                if old(self).spec_buffering_enabled() { None } else { ctx_opt(context) },
                r,
            ),
    {
        let ctx = if self.buffering_enabled { None } else { context };
        let ghost gctx = ctx_opt(ctx);
        let ghost e0 = self.spec_exporter();
        let ghost mapping = e0.spec_router().spec_mapping();
        let ghost running = e0.spec_state() == LifecycleState::Running;
        let ghost mut successes: int = 0;
        let ghost mut outs: Seq<Option<Seq<char>>> = Seq::empty();
        let mut failures: Vec<String> = Vec::new();
        let mut i: usize = 0;
        while i < batch.len()
            invariant
                self.wf(),
                i <= batch@.len(),
                self.spec_buffer() == old(self).spec_buffer(),
                self.spec_sampler() == old(self).spec_sampler(),
                self.spec_format() == old(self).spec_format(),
                self.spec_enabled() == old(self).spec_enabled(),
                self.spec_level() == old(self).spec_level(),
                self.spec_buffering_enabled() == old(self).spec_buffering_enabled(),
                self.spec_redactor() == old(self).spec_redactor(),
                e0 == old(self).spec_exporter(),
                mapping == e0.spec_router().spec_mapping(),
                running == (e0.spec_state() == LifecycleState::Running),
                gctx == ctx_opt(ctx),
                gctx == (if old(self).spec_buffering_enabled() { None } else { ctx_opt(context) }),
                self.spec_exporter().spec_state() == e0.spec_state(),
                self.spec_exporter().spec_router().spec_mapping() == mapping,
                running ==> self.spec_exporter().spec_router().spec_attempted() == e0.spec_router().spec_attempted()
                    + dispatch_lines(self.spec_format(), batch@.subrange(0, i as int), gctx, mapping),
                !running ==> self.spec_exporter().spec_router() == e0.spec_router(),
                running ==> handed_lines(self.spec_exporter().spec_router().spec_stdout()) == handed_lines(
                    e0.spec_router().spec_stdout(),
                ) + lines_to(dispatch_lines(self.spec_format(), batch@.subrange(0, i as int), gctx, mapping), LevelStream::Stdout),
                running ==> handed_lines(self.spec_exporter().spec_router().spec_stderr()) == handed_lines(
                    e0.spec_router().spec_stderr(),
                ) + lines_to(dispatch_lines(self.spec_format(), batch@.subrange(0, i as int), gctx, mapping), LevelStream::Stderr),
                0 <= successes <= i,
                self.spec_exporter().spec_router().spec_delivered().len() == e0.spec_router().spec_delivered().len()
                    + successes,
                failures@.len() == i - successes,
                successes == i ==> forall|j: int| 0 <= j < i ==> #[trigger] format_outcome(self.spec_format(), batch@[j], gctx) is Ok,
                !running ==> successes == 0,
                outs.len() == i,
                forall|j: int|
                    0 <= j < i ==> #[trigger] record_failure(self.spec_format(), batch@[j], gctx, e0.spec_state(), outs[j]),
                strings_view(failures@) == reported(outs),
                running ==> e0.spec_router().spec_stdout().handed().len() <= self.spec_exporter().spec_router().spec_stdout().handed().len(),
                running ==> e0.spec_router().spec_stderr().handed().len() <= self.spec_exporter().spec_router().spec_stderr().handed().len(),
                running && failures@.len() > 0 ==> (exists|j: int|
                    0 <= j < i && #[trigger] format_outcome(self.spec_format(), batch@[j], gctx) is Err) || !took_all(
                    e0.spec_router().spec_stdout().handed(),
                    self.spec_exporter().spec_router().spec_stdout().handed(),
                ) || !took_all(e0.spec_router().spec_stderr().handed(), self.spec_exporter().spec_router().spec_stderr().handed()),
            decreases batch.len() - i,
        {
            let rec = &batch[i];
            let ghost f0 = failures@;
            let ghost o0 = outs;
            let ghost hs0 = self.spec_exporter().spec_router().spec_stdout().handed();
            let ghost he0 = self.spec_exporter().spec_router().spec_stderr().handed();
            let ghost before = dispatch_lines(self.spec_format(), batch@.subrange(0, i as int), gctx, mapping);
            let ghost out0 = handed_lines(self.spec_exporter().spec_router().spec_stdout());
            let ghost err0 = handed_lines(self.spec_exporter().spec_router().spec_stderr());
            proof {
                assert(batch@.subrange(0, i + 1).drop_last() =~= batch@.subrange(0, i as int));
                assert(batch@.subrange(0, i + 1).last() == batch@[i as int]);
            }
            match format_record(self.format, rec, ctx) {
                Ok(text) => {
                    match self.dispatch(text.as_str(), *rec.severity()) {
                        Ok(()) => {
                            proof {
                                successes = successes + 1;
                                outs = outs.push(None);
                            }
                        },
                        Err(e) => {
                            let m = e.message();
                            proof {
                                outs = outs.push(Some(m@));
                            }
                            failures.push(m);
                        },
                    }
                },
                Err(e) => {
                    let m = e.message();
                    proof {
                        reveal_strlit("value rendering failed: ");
                        outs = outs.push(Some(m@));
                    }
                    failures.push(m);
                },
            }
            proof {
                assert(outs.drop_last() =~= o0);
                if outs.last() is Some {
                    assert(strings_view(failures@) =~= strings_view(f0).push(outs.last()->Some_0));
                } else {
                    assert(failures@ =~= f0);
                }
                assert(strings_view(failures@) == reported(outs));
                assert(record_failure(self.spec_format(), batch@[i as int], gctx, e0.spec_state(), outs[i as int]));
                let hs1 = self.spec_exporter().spec_router().spec_stdout().handed();
                let he1 = self.spec_exporter().spec_router().spec_stderr().handed();
                let hs_e0 = e0.spec_router().spec_stdout().handed();
                let he_e0 = e0.spec_router().spec_stderr().handed();
                if running {
                    if format_outcome(self.spec_format(), batch@[i as int], gctx) is Ok {
                        if stream_for(mapping, batch@[i as int].spec_severity()) == LevelStream::Stdout {
                            assert(hs1.len() == hs0.len() + 1) by {
                                assert(handed_lines(self.spec_exporter().spec_router().spec_stdout()).len() == hs1.len());
                            }
                            lemma_took_all_step(hs_e0, hs0, hs1);
                        } else {
                            assert(he1.len() == he0.len() + 1) by {
                                assert(handed_lines(self.spec_exporter().spec_router().spec_stderr()).len() == he1.len());
                            }
                            lemma_took_all_step(he_e0, he0, he1);
                        }
                    }
                    if failures@.len() > 0 && f0.len() > 0 {
                        if exists|j: int|
                            0 <= j < i && #[trigger] format_outcome(self.spec_format(), batch@[j], gctx) is Err {
                            let j = choose|j: int|
                                0 <= j < i && #[trigger] format_outcome(self.spec_format(), batch@[j], gctx) is Err;
                            assert(0 <= j < i + 1 && format_outcome(self.spec_format(), batch@[j], gctx) is Err);
                        }
                    }
                    if format_outcome(self.spec_format(), batch@[i as int], gctx) is Err {
                        assert(0 <= i < i + 1 && format_outcome(self.spec_format(), batch@[i as int], gctx) is Err);
                    }
                }
            }
            proof {
                let after = dispatch_lines(self.spec_format(), batch@.subrange(0, i + 1), gctx, mapping);
                if format_outcome(self.spec_format(), batch@[i as int], gctx) is Ok {
                    let t = format_outcome(self.spec_format(), batch@[i as int], gctx)->Ok_0;
                    let item = (stream_for(mapping, batch@[i as int].spec_severity()), t);
                    assert(after == before.push(item));
                    lemma_lines_to_push(before, item, LevelStream::Stdout);
                    lemma_lines_to_push(before, item, LevelStream::Stderr);
                    if running {
                        if item.0 == LevelStream::Stdout {
                            assert(out0.push(t) =~= handed_lines(e0.spec_router().spec_stdout()) + lines_to(after, LevelStream::Stdout));
                        } else {
                            assert(err0.push(t) =~= handed_lines(e0.spec_router().spec_stderr()) + lines_to(after, LevelStream::Stderr));
                        }
                    }
                } else {
                    assert(after == before);
                }
            }
            i = i + 1;
        }
        proof {
            assert(batch@.subrange(0, batch@.len() as int) =~= batch@);
        }
        if failures.len() == 0 {
            Ok(())
        } else {
            let r = Err(PipelineError::InitializationFailed(join_strings(&failures, "; ")));
            assert(failures_report(r, outs, self.spec_format(), batch@, gctx, e0.spec_state()));
            r
        }
    }

    /// What running `record` (with `context`) through the pipeline at
    /// `now_nanos`, with `probabilistic_pass` as the sampling draw, makes of
    /// `self`, with result `r`: a record dropped by the enabled gate or the
    /// level filter leaves everything unchanged; one dropped by sampling
    /// changes only the sampler; a kept record is redacted and buffered, and
    /// a batch the buffer releases (by size, or else by time) is formatted
    /// and exported.
    pub open spec fn logged(
        self,
        after: Self,
        record: LogRecord,
        context: Option<LogContext>,
        now_nanos: i64,
        probabilistic_pass: bool,
        r: Result<(), PipelineError>,
    ) -> bool {
        &&& after.spec_format() == self.spec_format()
        &&& after.spec_enabled() == self.spec_enabled()
        &&& after.spec_level() == self.spec_level()
        &&& after.spec_redactor() == self.spec_redactor()
        &&& !self.spec_enabled() || !passes_level(record.spec_severity(), self.spec_level()) ==> r is Ok && after
            == self
        &&& self.spec_enabled() && passes_level(record.spec_severity(), self.spec_level()) ==> {
            let kept = sample_decision(self.spec_sampler(), now_nanos, probabilistic_pass);
            &&& sampled_after(self.spec_sampler(), now_nanos, after.spec_sampler())
            &&& !kept ==> r is Ok && after.spec_buffer() == self.spec_buffer() && after.spec_exporter()
                == self.spec_exporter()
            &&& kept ==> exists|red: LogRecord|
                #[trigger] redaction_of(self.spec_redactor().spec_config(), record, red) && {
                    let buf = self.spec_buffer();
                    match released_on_arrival(
                        buf.spec_config(),
                        buf.spec_records(),
                        buf.spec_window_start(),
                        red,
                        now_nanos,
                    ) {
                        None => r is Ok && after.spec_exporter() == self.spec_exporter()
                            && after.spec_buffer().spec_records() == buf.spec_records().push(red),
                        Some(batch) => after.spec_buffer().spec_records().len() == 0 && dispatched(
                            self.spec_exporter(),
                            after.spec_exporter(),
                            self.spec_format(),
                            batch,
                            if self.spec_buffering_enabled() { None } else { context },
                            r,
                        ),
                    }
                }
        }
    }

    /// Runs `record` through the pipeline at instant `now_nanos`, with
    /// `probabilistic_pass` as the draw of probabilistic sampling. A record
    /// dropped by the enabled gate or the level filter leaves everything
    /// unchanged; one dropped by sampling changes only the sampler. A kept
    /// record is redacted and buffered; a batch released by the buffer (by
    /// size, or else by time) is formatted and exported.
    pub fn log_record(
        &mut self,
        record: &LogRecord,
        context: Option<&LogContext>,
        now_nanos: i64,
        probabilistic_pass: bool,
    ) -> (r: Result<(), PipelineError>)
        requires
            old(self).wf(),
            record.wf(),
        ensures
            final(self).wf(),
            old(self).logged(*final(self), *record, ctx_opt(context), now_nanos, probabilistic_pass, r),
    {
        if !self.enabled || !record.severity().at_least(&level_floor(self.level)) {
            return Ok(());
        }
        if !self.sampler.should_sample(now_nanos, probabilistic_pass) {
            return Ok(());
        }
        let redacted = self.redactor.redact(record);
        let ghost red = redacted;
        let ghost buf = self.spec_buffer();
        let ghost ctx = if self.buffering_enabled { None } else { ctx_opt(context) };
        let ghost released = released_on_arrival(
            buf.spec_config(),
            buf.spec_records(),
            buf.spec_window_start(),
            red,
            now_nanos,
        );
        let res = match self.buffer.add(redacted, now_nanos) {
            Some(batch) => {
                assert(released == Some(batch@));
                self.format_and_dispatch(&batch, context)
            },
            None => {
                proof {
                    assert(self.buffer.spec_records().drop_last() == old(self).spec_buffer().spec_records());
                }
                match self.buffer.try_flush(now_nanos) {
                    Some(batch) => {
                        assert(released == Some(batch@));
                        assert(ctx == ctx_opt(None));
                        self.format_and_dispatch(&batch, None)
                    },
                    None => {
                        assert(released is None);
                        Ok(())
                    },
                }
            },
        };
        assert(redaction_of(old(self).spec_redactor().spec_config(), *record, red));
        res
    }

    /// Builds a record from `severity`, `message` and `timestamp` and runs
    /// it through the pipeline; an empty message is refused.
    pub fn log(&mut self, severity: Severity, message: &str, timestamp: Timestamp, now_nanos: i64, probabilistic_pass: bool) -> (r:
        Result<(), PipelineError>)
        requires
            old(self).wf(),
        ensures
            final(self).wf(),
            message@.len() == 0 ==> (r matches Err(PipelineError::InitializationFailed(m))
                && m@ == "Message cannot be empty"@ && *final(self) == *old(self)),
            message@.len() > 0 ==> exists|rec: LogRecord|
                #![trigger old(self).logged(*final(self), rec, None, now_nanos, probabilistic_pass, r)]
                rec.wf() && rec.spec_timestamp() == timestamp && rec.spec_severity() == severity
                    && rec.spec_message() == message@ && rec.spec_attributes().len() == 0
                    && old(self).logged(*final(self), rec, None, now_nanos, probabilistic_pass, r),
    {
        let record = match LogRecord::new(timestamp, severity, message.to_string(), Vec::new()) {
            Ok(r) => r,
            Err(e) => {
                return Err(PipelineError::InitializationFailed(e.message()));
            },
        };
        self.log_record(&record, None, now_nanos, probabilistic_pass)
    }

    /// Formats and exports every buffered record, whatever the buffer's
    /// flush conditions.
    fn drain_buffer(&mut self) -> (r: Result<(), PipelineError>)
        requires
            old(self).wf(),
        ensures
            final(self).wf(),
            final(self).spec_buffer().spec_records().len() == 0,
            final(self).spec_sampler() == old(self).spec_sampler(),
            final(self).spec_format() == old(self).spec_format(),
            final(self).spec_enabled() == old(self).spec_enabled(),
            final(self).spec_level() == old(self).spec_level(),
            final(self).spec_redactor() == old(self).spec_redactor(),
            final(self).spec_buffering_enabled() == old(self).spec_buffering_enabled(),
            old(self).spec_buffer().spec_records().len() == 0 ==> r is Ok
                && final(self).spec_exporter() == old(self).spec_exporter(),
            old(self).spec_buffer().spec_records().len() > 0 ==> dispatched(
                old(self).spec_exporter(),
                final(self).spec_exporter(),
                old(self).spec_format(),
                old(self).spec_buffer().spec_records(),
                None,
                r,
            ),
    {
        let drained = self.buffer.drain();
        if drained.len() == 0 {
            return Ok(());
        }
        self.format_and_dispatch(&drained, None)
    }

    /// Drains the buffer (formatting and exporting what it held), then
    /// flushes the exporter.
    pub fn flush(&mut self) -> (r: Result<(), PipelineError>)
        requires
            old(self).wf(),
        ensures
            final(self).wf(),
            final(self).spec_buffer().spec_records().len() == 0,
            final(self).spec_sampler() == old(self).spec_sampler(),
            final(self).spec_format() == old(self).spec_format(),
            final(self).spec_enabled() == old(self).spec_enabled(),
            final(self).spec_level() == old(self).spec_level(),
            final(self).spec_redactor() == old(self).spec_redactor(),
            old(self).spec_buffer().spec_records().len() == 0 ==> r is Ok
                && final(self).spec_exporter() == old(self).spec_exporter(),
            old(self).spec_buffer().spec_records().len() > 0 ==> dispatched(
                old(self).spec_exporter(),
                final(self).spec_exporter(),
                old(self).spec_format(),
                old(self).spec_buffer().spec_records(),
                None,
                r,
            ),
    {
        match self.drain_buffer() {
            Ok(()) => {},
            Err(e) => {
                return Err(e);
            },
        }
        match self.exporter.flush() {
            Ok(()) => Ok(()),
            Err(e) => Err(PipelineError::FlushFailed(e.message())),
        }
    }

    /// Drains the buffer (formatting and exporting what it held), then
    /// shuts the exporter down. A failed drain leaves the exporter running.
    pub fn shutdown(&mut self) -> (r: Result<(), PipelineError>)
        requires
            old(self).wf(),
        ensures
            final(self).wf(),
            final(self).spec_buffer().spec_records().len() == 0,
            final(self).spec_sampler() == old(self).spec_sampler(),
            final(self).spec_format() == old(self).spec_format(),
            ({
                let e0 = old(self).spec_exporter();
                let e1 = final(self).spec_exporter();
                let held = old(self).spec_buffer().spec_records();
                let mapping = e0.spec_router().spec_mapping();
                &&& e1.spec_router().spec_mapping() == mapping
                &&& e0.spec_state() == LifecycleState::Running ==> e1.spec_router().spec_attempted()
                    == e0.spec_router().spec_attempted() + dispatch_lines(old(self).spec_format(), held, None, mapping)
                &&& e0.spec_state() == LifecycleState::Running ==> handed_lines(e1.spec_router().spec_stdout())
                    == handed_lines(e0.spec_router().spec_stdout()) + lines_to(
                    dispatch_lines(old(self).spec_format(), held, None, mapping),
                    LevelStream::Stdout,
                )
                &&& e0.spec_state() == LifecycleState::Running ==> handed_lines(e1.spec_router().spec_stderr())
                    == handed_lines(e0.spec_router().spec_stderr()) + lines_to(
                    dispatch_lines(old(self).spec_format(), held, None, mapping),
                    LevelStream::Stderr,
                )
                &&& e0.spec_state() != LifecycleState::Running ==> r is Err && e1.spec_router() == e0.spec_router()
                &&& (r is Ok <==> e0.spec_state() == LifecycleState::Running
                    && (forall|i: int| 0 <= i < held.len() ==> #[trigger] format_outcome(old(self).spec_format(), held[i], None) is Ok)
                    && e1.spec_router().spec_delivered().len() == e0.spec_router().spec_delivered().len() + held.len())
                &&& r is Ok ==> e1.spec_state() == LifecycleState::Shutdown
                &&& r is Err ==> e1.spec_state() == e0.spec_state()
            }),
    {
        let ghost e0 = self.spec_exporter().spec_router();
        let ghost empty_lines = dispatch_lines(self.spec_format(), Seq::<LogRecord>::empty(), None, e0.spec_mapping());
        assert(empty_lines =~= Seq::<(LevelStream, Seq<char>)>::empty());
        assert(lines_to(empty_lines, LevelStream::Stdout) =~= Seq::<Seq<char>>::empty());
        assert(lines_to(empty_lines, LevelStream::Stderr) =~= Seq::<Seq<char>>::empty());
        assert(handed_lines(e0.spec_stdout()) + Seq::<Seq<char>>::empty() =~= handed_lines(e0.spec_stdout()));
        assert(handed_lines(e0.spec_stderr()) + Seq::<Seq<char>>::empty() =~= handed_lines(e0.spec_stderr()));
        assert(self.spec_buffer().spec_records().len() == 0 ==> self.spec_buffer().spec_records() =~= Seq::<LogRecord>::empty());
        match self.drain_buffer() {
            Ok(()) => {},
            Err(e) => {
                return Err(e);
            },
        }
        match self.exporter.shutdown() {
            Ok(()) => Ok(()),
            Err(e) => Err(PipelineError::ShutdownFailed(e.message())),
        }
    }
}

impl<W: LineWriter> KITLogger<OnShutdownFlush, W> {
    /// A pipeline with the default configuration, in `format`, over a new
    /// console exporter (not yet initialized, flushing on shutdown) that
    /// writes to `stdout` and `stderr`.
    pub fn with_format(format: LogFormat, stdout: W, stderr: W, now_nanos: i64) -> (r: Self)
        ensures
            r.wf(),
            r.spec_format() == format,
            r.spec_enabled(),
            r.spec_level() == LogLevel::Trace,
            !r.spec_buffering_enabled(),
            !r.spec_sampler().spec_config().enabled,
            !r.spec_redactor().spec_config().enabled,
            r.spec_exporter().spec_state() == LifecycleState::Uninitialized,
            r.spec_exporter().spec_router().spec_stdout() == stdout,
            r.spec_exporter().spec_router().spec_stderr() == stderr,
    {
        let exporter = ConsoleExporterImpl::with_flush_strategy(OnShutdownFlush, stdout, stderr);
        Self::with_exporter_and_format(exporter, format, now_nanos)
    }

    /// A pipeline with the default configuration and JSON output over a new
    /// console exporter, as `with_format` builds it.
    pub fn new(stdout: W, stderr: W, now_nanos: i64) -> (r: Self)
        ensures
            r.wf(),
            r.spec_format() == LogFormat::Json,
            r.spec_enabled(),
            r.spec_level() == LogLevel::Trace,
            !r.spec_buffering_enabled(),
            !r.spec_sampler().spec_config().enabled,
            !r.spec_redactor().spec_config().enabled,
            r.spec_exporter().spec_state() == LifecycleState::Uninitialized,
            r.spec_exporter().spec_router().spec_stdout() == stdout,
            r.spec_exporter().spec_router().spec_stderr() == stderr,
    {
        Self::with_format(LogFormat::Json, stdout, stderr, now_nanos)
    }

    /// A pipeline built from `config` over a new console exporter (not yet
    /// initialized, flushing on shutdown) that writes to `stdout` and
    /// `stderr`, in the format the configuration selects.
    pub fn from_logging_config(config: LoggingConfig, stdout: W, stderr: W, now_nanos: i64) -> (r: Self)
        requires
            config.buffering.enabled ==> config.buffering.flush_interval_ms != 0x8000_0000_0000_0000u64,
        ensures
            r.wf(),
            r.spec_format() == mapped_format(config.format),
            r.spec_enabled() == config.enabled,
            r.spec_level() == config.level,
            r.spec_buffering_enabled() == config.buffering.enabled,
            r.spec_sampler().spec_config() == config.sampling,
            r.spec_redactor().spec_config() == config.redact,
            r.spec_buffer().spec_config() == config.buffering,
            r.spec_exporter().spec_state() == LifecycleState::Uninitialized,
            r.spec_exporter().spec_router().spec_stdout() == stdout,
            r.spec_exporter().spec_router().spec_stderr() == stderr,
    {
        let exporter = ConsoleExporterImpl::with_flush_strategy(OnShutdownFlush, stdout, stderr);
        Self::from_logging_config_with_exporter(config, exporter, now_nanos)
    }
}

} // verus!
