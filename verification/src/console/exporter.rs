//! Console exporter: routes formatted lines to stdout/stderr under a
//! lifecycle and a flush strategy.

use vstd::prelude::*;

use crate::console::error::ExportError;
use crate::console::flush::{FlushStrategy, ImmediateFlush};
use crate::console::lifecycle::{LifecycleState, LifecycleStateMachine};
use crate::console::stream_router::{lemma_memory_writer_record, routed_outcome, default_mapping, stream_for, LevelStream,
    LevelStreamMapping, LineWriter, MemoryWriter, StreamRouter};
use crate::severity::Severity;

verus! {

/// Operations every console exporter offers.
pub trait ConsoleExporter {
    /// Exports a formatted log message.
    fn export(&mut self, msg: &str, severity: Severity) -> Result<(), ExportError>;

    /// Flushes pending output.
    fn flush(&self) -> Result<(), ExportError>;

    /// Shuts down the exporter.
    fn shutdown(&mut self) -> Result<(), ExportError>;
}

/// Console exporter: a stream router, a lifecycle, a flush strategy and a
/// count of the writes made so far.
pub struct ConsoleExporterImpl<S: FlushStrategy, W: LineWriter> {
    router: StreamRouter<W>,
    lifecycle: LifecycleStateMachine,
    flush_strategy: S,
    write_count: usize,
    flushes: Ghost<Seq<Option<usize>>>,
}

/// The write count after one more write (wrapping at `usize::MAX`).
pub open spec fn next_count(n: usize) -> usize {
    if n == usize::MAX {
        0
    } else {
        (n + 1) as usize
    }
}

/// The flush log after a write numbered `n` under strategy `s`: one more
/// flush, after write `n`, exactly when the strategy asks for one then.
pub open spec fn flushes_after_write<S: FlushStrategy>(s: S, flushes: Seq<Option<usize>>, n: usize) -> Seq<
    Option<usize>,
> {
    if s.flushes_after(n as nat) {
        flushes.push(Some(n))
    } else {
        flushes
    }
}

/// Exporter `e1`, with result `r`, is what exporting `msg` at `severity`
/// makes of `e0`. The state, mapping and strategy stay. Unless running, the
/// export is refused (`Exporter is not running`) and nothing changes.
/// Running, the message is handed to the writer of the stream its severity
/// maps to, the other writer is left alone, and the result is that
/// writer's: on success the write is counted and a flush follows exactly
/// when the strategy asks for one after that write; on an I/O error neither.
pub open spec fn exported<S: FlushStrategy, W: LineWriter>(
    e0: ConsoleExporterImpl<S, W>,
    e1: ConsoleExporterImpl<S, W>,
    msg: Seq<char>,
    severity: Severity,
    r: Result<(), ExportError>,
) -> bool {
    &&& e1.spec_state() == e0.spec_state()
    &&& e1.spec_router().spec_mapping() == e0.spec_router().spec_mapping()
    &&& e1.spec_strategy() == e0.spec_strategy()
    &&& e0.spec_state() != LifecycleState::Running ==> (r matches Err(ExportError::Lifecycle(m)) && m@
        == "Exporter is not running"@) && e1.spec_router() == e0.spec_router() && e1.spec_write_count()
        == e0.spec_write_count() && e1.spec_flushes() == e0.spec_flushes()
    &&& e0.spec_state() == LifecycleState::Running ==> {
        let stream = stream_for(e0.spec_router().spec_mapping(), severity);
        &&& (r is Ok || r is Err && r->Err_0 is Io)
        &&& r is Ok ==> e1.spec_write_count() == next_count(e0.spec_write_count())
        &&& r is Ok ==> e1.spec_flushes() == flushes_after_write(
            e0.spec_strategy(),
            e0.spec_flushes(),
            e0.spec_write_count(),
        )
        &&& r is Err ==> e1.spec_write_count() == e0.spec_write_count() && e1.spec_flushes() == e0.spec_flushes()
        &&& e1.spec_router().spec_attempted() == e0.spec_router().spec_attempted().push((stream, msg))
        &&& r is Ok ==> e1.spec_router().spec_delivered() == e0.spec_router().spec_delivered().push((stream, msg))
        &&& r is Err ==> e1.spec_router().spec_delivered() == e0.spec_router().spec_delivered()
        &&& stream == LevelStream::Stdout ==> e1.spec_router().spec_stdout().handed()
            == e0.spec_router().spec_stdout().handed().push(routed_outcome(msg, r)) && e1.spec_router().spec_stderr()
            == e0.spec_router().spec_stderr()
        &&& stream == LevelStream::Stderr ==> e1.spec_router().spec_stderr().handed()
            == e0.spec_router().spec_stderr().handed().push(routed_outcome(msg, r)) && e1.spec_router().spec_stdout()
            == e0.spec_router().spec_stdout()
    }
}

/// Exporter `e1`, with result `r`, is what shutting `e0` down makes of it.
/// The router, write count and strategy stay. A running exporter goes to
/// `Shutdown`, flushing on the way exactly when the strategy flushes on
/// shutdown; any other is refused (`Invalid lifecycle transition`) and
/// nothing changes.
pub open spec fn shut_down<S: FlushStrategy, W: LineWriter>(
    e0: ConsoleExporterImpl<S, W>,
    e1: ConsoleExporterImpl<S, W>,
    r: Result<(), ExportError>,
) -> bool {
    &&& e1.spec_router() == e0.spec_router()
    &&& e1.spec_write_count() == e0.spec_write_count()
    &&& e1.spec_strategy() == e0.spec_strategy()
    &&& e0.spec_state() == LifecycleState::Running ==> r is Ok && e1.spec_state() == LifecycleState::Shutdown
        && e1.spec_flushes() == if e0.spec_strategy().flushes_on_shutdown() {
        e0.spec_flushes().push(None)
    } else {
        e0.spec_flushes()
    }
    &&& e0.spec_state() != LifecycleState::Running ==> (r matches Err(ExportError::Lifecycle(m)) && m@
        == "Invalid lifecycle transition"@) && e1.spec_state() == e0.spec_state() && e1.spec_flushes()
        == e0.spec_flushes()
}

/// Exporter `e1`, with result `r`, is what initializing `e0` makes of it.
/// Everything but the state stays. An uninitialized exporter starts
/// running; any other is refused (`Invalid lifecycle transition`) and keeps
/// its state.
pub open spec fn initialized<S: FlushStrategy, W: LineWriter>(
    e0: ConsoleExporterImpl<S, W>,
    e1: ConsoleExporterImpl<S, W>,
    r: Result<(), ExportError>,
) -> bool {
    &&& e1.spec_router() == e0.spec_router()
    &&& e1.spec_write_count() == e0.spec_write_count()
    &&& e1.spec_strategy() == e0.spec_strategy()
    &&& e1.spec_flushes() == e0.spec_flushes()
    &&& e0.spec_state() == LifecycleState::Uninitialized ==> r is Ok && e1.spec_state() == LifecycleState::Running
    &&& e0.spec_state() != LifecycleState::Uninitialized ==> (r matches Err(ExportError::Lifecycle(m)) && m@
        == "Invalid lifecycle transition"@) && e1.spec_state() == e0.spec_state()
}

/// The exporter's lifecycle as a user goes through it: a new exporter
/// initializes, exports and shuts down (flushing on the way exactly when its
/// strategy flushes on shutdown); once shut down, it refuses every export
/// and every further shutdown with a lifecycle error and changes no more.
pub proof fn law_exporter_lifecycle<S: FlushStrategy, W: LineWriter>(
    e0: ConsoleExporterImpl<S, W>,
    e1: ConsoleExporterImpl<S, W>,
    r1: Result<(), ExportError>,
    e2: ConsoleExporterImpl<S, W>,
    m2: Seq<char>,
    s2: Severity,
    r2: Result<(), ExportError>,
    e3: ConsoleExporterImpl<S, W>,
    r3: Result<(), ExportError>,
    e4: ConsoleExporterImpl<S, W>,
    m4: Seq<char>,
    s4: Severity,
    r4: Result<(), ExportError>,
    e5: ConsoleExporterImpl<S, W>,
    r5: Result<(), ExportError>,
)
    requires
        e0.spec_state() == LifecycleState::Uninitialized,
        initialized(e0, e1, r1),
        exported(e1, e2, m2, s2, r2),
        shut_down(e2, e3, r3),
        exported(e3, e4, m4, s4, r4),
        shut_down(e4, e5, r5),
    ensures
        r1 is Ok,
        r3 is Ok,
        e3.spec_state() == LifecycleState::Shutdown,
        e3.spec_flushes() == if e0.spec_strategy().flushes_on_shutdown() {
            e2.spec_flushes().push(None)
        } else {
            e2.spec_flushes()
        },
        r4 matches Err(ExportError::Lifecycle(_)),
        r5 matches Err(ExportError::Lifecycle(_)),
        e5.spec_state() == LifecycleState::Shutdown,
        e5.spec_router() == e3.spec_router(),
        e5.spec_write_count() == e3.spec_write_count(),
        e5.spec_flushes() == e3.spec_flushes(),
{
}

/// Shutting down an exporter that was never initialized is refused with a
/// lifecycle error and leaves it uninitialized.
pub proof fn law_shutdown_before_init_refused<S: FlushStrategy, W: LineWriter>(
    e0: ConsoleExporterImpl<S, W>,
    e1: ConsoleExporterImpl<S, W>,
    r: Result<(), ExportError>,
)
    requires
        e0.spec_state() == LifecycleState::Uninitialized,
        shut_down(e0, e1, r),
    ensures
        r matches Err(ExportError::Lifecycle(_)),
        e1.spec_state() == LifecycleState::Uninitialized,
        e1.spec_router() == e0.spec_router(),
{
}

/// A write that the writer takes is counted and followed by a flush exactly
/// when the strategy asks for one after the write numbered by the count so
/// far; a write the writer refuses is neither counted nor flushed.
pub proof fn law_flush_follows_counted_writes<S: FlushStrategy, W: LineWriter>(
    e0: ConsoleExporterImpl<S, W>,
    e1: ConsoleExporterImpl<S, W>,
    msg: Seq<char>,
    severity: Severity,
    r: Result<(), ExportError>,
)
    requires
        e0.spec_state() == LifecycleState::Running,
        exported(e0, e1, msg, severity, r),
    ensures
        r is Ok ==> e1.spec_write_count() == next_count(e0.spec_write_count()) && (e1.spec_flushes().len()
            == e0.spec_flushes().len() + 1 <==> e0.spec_strategy().flushes_after(e0.spec_write_count() as nat)),
        r is Err ==> r->Err_0 is Io && e1.spec_write_count() == e0.spec_write_count() && e1.spec_flushes()
            == e0.spec_flushes(),
{
}

/// In-memory writers never fail, so a running exporter over them exports
/// every message: the message joins the lines of the writer its severity
/// maps to, and the other writer keeps its lines.
pub proof fn law_export_to_memory_writers_succeeds<S: FlushStrategy>(
    e0: ConsoleExporterImpl<S, MemoryWriter>,
    e1: ConsoleExporterImpl<S, MemoryWriter>,
    msg: Seq<char>,
    severity: Severity,
    r: Result<(), ExportError>,
)
    requires
        e0.spec_state() == LifecycleState::Running,
        exported(e0, e1, msg, severity, r),
    ensures
        r is Ok,
        stream_for(e0.spec_router().spec_mapping(), severity) == LevelStream::Stdout ==> e1.spec_router().spec_stdout().lines()
            == e0.spec_router().spec_stdout().lines().push(msg) && e1.spec_router().spec_stderr().lines()
            == e0.spec_router().spec_stderr().lines(),
        stream_for(e0.spec_router().spec_mapping(), severity) == LevelStream::Stderr ==> e1.spec_router().spec_stderr().lines()
            == e0.spec_router().spec_stderr().lines().push(msg) && e1.spec_router().spec_stdout().lines()
            == e0.spec_router().spec_stdout().lines(),
{
    let f = |l: Seq<char>| (l, None::<Seq<char>>);
    let (w0, w1) = if stream_for(e0.spec_router().spec_mapping(), severity) == LevelStream::Stdout {
        (e0.spec_router().spec_stdout(), e1.spec_router().spec_stdout())
    } else {
        (e0.spec_router().spec_stderr(), e1.spec_router().spec_stderr())
    };
    lemma_memory_writer_record(w0);
    lemma_memory_writer_record(w1);
    let l0 = w0.lines();
    let l1 = w1.lines();
    assert(w1.handed() == w0.handed().push(routed_outcome(msg, r)));
    assert(l1.len() == l0.len() + 1);
    assert(w1.handed()[l0.len() as int] == f(l1[l0.len() as int]));
    assert(routed_outcome(msg, r).1 is None);
    assert forall|i: int| 0 <= i < l1.len() implies l1[i] == l0.push(msg)[i] by {
        assert(w1.handed()[i] == f(l1[i]));
        if i < l0.len() {
            assert(w0.handed()[i] == f(l0[i]));
        }
    }
    assert(l1 =~= l0.push(msg));
}

impl<W: LineWriter> ConsoleExporterImpl<ImmediateFlush, W> {
    /// A console exporter that flushes after every write, writing to the
    /// given stdout and stderr writers with the default mapping.
    pub fn new(stdout: W, stderr: W) -> (r: Self)
        ensures
            r.spec_state() == LifecycleState::Uninitialized,
            r.spec_router().spec_mapping() == default_mapping(),
            r.spec_router().spec_stdout() == stdout,
            r.spec_router().spec_stderr() == stderr,
            r.spec_router().spec_attempted() == Seq::<(LevelStream, Seq<char>)>::empty(),
            r.spec_router().spec_delivered() == Seq::<(LevelStream, Seq<char>)>::empty(),
            r.spec_write_count() == 0,
            r.spec_flushes() == Seq::<Option<usize>>::empty(),
    {
        Self::with_flush_strategy(ImmediateFlush, stdout, stderr)
    }
}

impl<S: FlushStrategy, W: LineWriter> ConsoleExporterImpl<S, W> {
    /// The lifecycle state.
    pub closed spec fn spec_state(&self) -> LifecycleState {
        self.lifecycle.spec_state()
    }

    /// The stream router.
    pub closed spec fn spec_router(&self) -> StreamRouter<W> {
        self.router
    }

    /// The number of successful writes so far (wrapping).
    pub closed spec fn spec_write_count(&self) -> usize {
        self.write_count
    }

    /// The flush strategy.
    pub closed spec fn spec_strategy(&self) -> S {
        self.flush_strategy
    }

    /// The flushes made so far, in order: after the write numbered `n`
    /// (`Some(n)`), or on shutdown (`None`).
    pub closed spec fn spec_flushes(&self) -> Seq<Option<usize>> {
        self.flushes@
    }

    /// A console exporter with a custom flush strategy.
    pub fn with_flush_strategy(flush_strategy: S, stdout: W, stderr: W) -> (r: Self)
        ensures
            r.spec_state() == LifecycleState::Uninitialized,
            r.spec_router().spec_mapping() == default_mapping(),
            r.spec_router().spec_stdout() == stdout,
            r.spec_router().spec_stderr() == stderr,
            r.spec_router().spec_attempted() == Seq::<(LevelStream, Seq<char>)>::empty(),
            r.spec_router().spec_delivered() == Seq::<(LevelStream, Seq<char>)>::empty(),
            r.spec_write_count() == 0,
            r.spec_strategy() == flush_strategy,
            r.spec_flushes() == Seq::<Option<usize>>::empty(),
    {
        ConsoleExporterImpl {
            router: StreamRouter::with_writers(LevelStreamMapping::default(), stdout, stderr),
            lifecycle: LifecycleStateMachine::new(),
            flush_strategy,
            write_count: 0,
            flushes: Ghost(Seq::empty()),
        }
    }

    /// Initializes the exporter: Uninitialized -> Running.
    pub fn init(&mut self) -> (r: Result<(), ExportError>)
        ensures
            initialized(*old(self), *final(self), r),
    {
        self.lifecycle.transition_to(LifecycleState::Running)
    }

    /// Sets a custom level-to-stream mapping.
    pub fn set_mapping(&mut self, mapping: LevelStreamMapping)
        ensures
            final(self).spec_router().spec_mapping() == mapping,
            final(self).spec_router().spec_stdout() == old(self).spec_router().spec_stdout(),
            final(self).spec_router().spec_stderr() == old(self).spec_router().spec_stderr(),
            final(self).spec_state() == old(self).spec_state(),
            final(self).spec_write_count() == old(self).spec_write_count(),
            final(self).spec_strategy() == old(self).spec_strategy(),
            final(self).spec_flushes() == old(self).spec_flushes(),
    {
        self.router.set_mapping(mapping);
    }

    /// Sets custom writers for stdout and stderr.
    pub fn set_writers(&mut self, stdout: W, stderr: W)
        ensures
            final(self).spec_router().spec_mapping() == old(self).spec_router().spec_mapping(),
            final(self).spec_router().spec_stdout() == stdout,
            final(self).spec_router().spec_stderr() == stderr,
            final(self).spec_state() == old(self).spec_state(),
            final(self).spec_write_count() == old(self).spec_write_count(),
            final(self).spec_strategy() == old(self).spec_strategy(),
            final(self).spec_flushes() == old(self).spec_flushes(),
    {
        self.router.set_writers(stdout, stderr);
    }

    /// Exports a formatted message. Refused unless the exporter is running;
    /// otherwise the message goes to the stream its severity maps to, the
    /// write is counted, and a flush follows when the strategy asks for one.
    pub fn export(&mut self, msg: &str, severity: Severity) -> (r: Result<(), ExportError>)
        ensures
            exported(*old(self), *final(self), msg@, severity, r),
    {
        if !self.lifecycle.is_running() {
            return Err(ExportError::Lifecycle("Exporter is not running".to_string()));
        }
        match self.router.write(msg, severity) {
            Ok(()) => {},
            Err(e) => return Err(e),
        }
        let count = self.write_count;
        self.write_count = if count == usize::MAX { 0 } else { count + 1 };
        if self.flush_strategy.should_flush(count) {
            proof {
                self.flushes@ = self.flushes@.push(Some(count));
            }
            match self.flush() {
                Ok(()) => {},
                Err(e) => return Err(e),
            }
        }
        Ok(())
    }

    /// Flushes pending output. Every line is written through when it is
    /// routed, so there is never anything left to flush.
    pub fn flush(&self) -> (r: Result<(), ExportError>)
        ensures
            r is Ok,
    {
        Ok(())
    }

    /// Shuts the exporter down: Running -> Flushing -> Shutdown, flushing in
    /// between when the strategy asks for it. Refused, without any change,
    /// unless the exporter is running.
    pub fn shutdown(&mut self) -> (r: Result<(), ExportError>)
        ensures
            shut_down(*old(self), *final(self), r),
    {
        match self.lifecycle.transition_to(LifecycleState::Flushing) {
            Ok(()) => {},
            Err(e) => return Err(e),
        }
        if self.flush_strategy.on_shutdown() {
            proof {
                self.flushes@ = self.flushes@.push(None);
            }
            match self.flush() {
                Ok(()) => {},
                Err(e) => return Err(e),
            }
        }
        self.lifecycle.transition_to(LifecycleState::Shutdown)
    }
}

impl<S: FlushStrategy, W: LineWriter> ConsoleExporter for ConsoleExporterImpl<S, W> {
    fn export(&mut self, msg: &str, severity: Severity) -> (r: Result<(), ExportError>)
        ensures
            exported(*old(self), *final(self), msg@, severity, r),
    {
        ConsoleExporterImpl::export(self, msg, severity)
    }

    fn flush(&self) -> (r: Result<(), ExportError>)
        ensures
            r is Ok,
    {
        ConsoleExporterImpl::flush(self)
    }

    fn shutdown(&mut self) -> (r: Result<(), ExportError>)
        ensures
            shut_down(*old(self), *final(self), r),
    {
        ConsoleExporterImpl::shutdown(self)
    }
}

} // verus!
