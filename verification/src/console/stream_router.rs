//! Stream router: sends each message to the stream its severity maps to.

use vstd::prelude::*;

use crate::console::error::ExportError;
use crate::severity::Severity;

verus! {

/// An output stream.
#[derive(Debug, Clone, Copy, PartialEq, Eq, Hash, Structural)]
pub enum LevelStream {
    Stdout,
    Stderr,
}

/// Maps severity levels to output streams (`Trace` follows `debug`).
#[derive(Debug, Clone, Copy, PartialEq, Eq, Hash, Structural)]
pub struct LevelStreamMapping {
    pub debug: LevelStream,
    pub info: LevelStream,
    pub warn: LevelStream,
    pub error: LevelStream,
    pub fatal: LevelStream,
}

/// The stream a severity is written to under `mapping`.
pub open spec fn stream_for(mapping: LevelStreamMapping, severity: Severity) -> LevelStream {
    match severity {
        Severity::Trace => mapping.debug,
        Severity::Debug => mapping.debug,
        Severity::Info => mapping.info,
        Severity::Warn => mapping.warn,
        Severity::Error => mapping.error,
        Severity::Fatal => mapping.fatal,
    }
}

impl LevelStreamMapping {
    /// The stream `severity` is written to.
    pub fn stream_for(&self, severity: Severity) -> (r: LevelStream)
        ensures
            r == stream_for(*self, severity),
    {
        match severity {
            Severity::Trace => self.debug,
            Severity::Debug => self.debug,
            Severity::Info => self.info,
            Severity::Warn => self.warn,
            Severity::Error => self.error,
            Severity::Fatal => self.fatal,
        }
    }
}

/// The default mapping: debug and info to stdout; warn, error and fatal to stderr.
pub open spec fn default_mapping() -> LevelStreamMapping {
    LevelStreamMapping {
        debug: LevelStream::Stdout,
        info: LevelStream::Stdout,
        warn: LevelStream::Stderr,
        error: LevelStream::Stderr,
        fatal: LevelStream::Stderr,
    }
}

impl Default for LevelStreamMapping {
    /// Debug and info to stdout; warn, error and fatal to stderr.
    fn default() -> (r: Self)
        ensures
            r == default_mapping(),
    {
        LevelStreamMapping {
            debug: LevelStream::Stdout,
            info: LevelStream::Stdout,
            warn: LevelStream::Stderr,
            error: LevelStream::Stderr,
            fatal: LevelStream::Stderr,
        }
    }
}

/// A writer's record of one line handed to it: the line, and `None` when
/// the writer took it or the message of the error it returned.
pub open spec fn line_outcome(line: Seq<char>, r: Result<(), String>) -> (Seq<char>, Option<Seq<char>>) {
    (line, match r {
        Ok(_) => None,
        Err(m) => Some(m@),
    })
}

/// The record a router's write leaves with the writer it chose: the
/// message, and `None` on success or the writer's error message carried by
/// the `Io` error.
pub open spec fn routed_outcome(msg: Seq<char>, r: Result<(), ExportError>) -> (Seq<char>, Option<Seq<char>>) {
    (msg, match r {
        Ok(_) => None,
        Err(ExportError::Io(m)) => Some(m@),
        Err(_) => None,
    })
}

/// A destination that takes whole lines (the message followed by a newline)
/// and flushes after each one. On failure it returns the writer's message.
pub trait LineWriter {
    /// Every line handed to this writer so far, in order, with the outcome
    /// it reported. A writer that does not define this record keeps it
    /// only in its behaviour: it must take each line as `write_line` says.
    open spec fn handed(&self) -> Seq<(Seq<char>, Option<Seq<char>>)> {
        Seq::empty()
    }

    /// Writes `line` and a newline, then flushes; the line and the outcome
    /// are added to the writer's record.
    fn write_line(&mut self, line: &str) -> (r: Result<(), String>)
        ensures
            final(self).handed() == old(self).handed().push(line_outcome(line@, r)),
    ;
}

/// An in-memory line writer that keeps every line written to it.
#[derive(Debug, Clone, PartialEq, Eq, Default)]
pub struct MemoryWriter {
    written: Vec<String>,
}

impl MemoryWriter {
    /// The lines written so far.
    pub closed spec fn lines(&self) -> Seq<Seq<char>> {
        crate::text::strings_view(self.written@)
    }

    /// An empty writer.
    pub fn new() -> (r: Self)
        ensures
            r.lines().len() == 0,
    {
        MemoryWriter { written: Vec::new() }
    }

    /// The lines written so far, in order.
    pub fn written_lines(&self) -> (r: &Vec<String>)
        ensures
            crate::text::strings_view(r@) == self.lines(),
    {
        &self.written
    }
}

impl LineWriter for MemoryWriter {
    closed spec fn handed(&self) -> Seq<(Seq<char>, Option<Seq<char>>)> {
        self.written@.map_values(|s: String| (s@, None::<Seq<char>>))
    }

    /// Keeps `line`; never fails.
    fn write_line(&mut self, line: &str) -> (r: Result<(), String>)
        ensures
            r is Ok,
            final(self).lines() == old(self).lines().push(line@),
    {
        self.written.push(line.to_string());
        assert(crate::text::strings_view(self.written@) =~= old(self).lines().push(line@));
        assert(self.written@.map_values(|s: String| (s@, None::<Seq<char>>)) =~= old(self).written@.map_values(
            |s: String| (s@, None::<Seq<char>>),
        ).push(line_outcome(line@, Ok(()))));
        Ok(())
    }
}

/// An in-memory writer's record holds exactly the lines it keeps, each
/// taken without error.
pub proof fn lemma_memory_writer_record(w: MemoryWriter)
    ensures
        w.handed() == w.lines().map_values(|l: Seq<char>| (l, None::<Seq<char>>)),
{
    assert(w.handed() =~= w.lines().map_values(|l: Seq<char>| (l, None::<Seq<char>>)));
}

/// Writes each message to the stream its severity maps to.
pub struct StreamRouter<W: LineWriter> {
    mapping: LevelStreamMapping,
    stdout: W,
    stderr: W,
    attempted: Ghost<Seq<(LevelStream, Seq<char>)>>,
    delivered: Ghost<Seq<(LevelStream, Seq<char>)>>,
}

impl<W: LineWriter> StreamRouter<W> {
    /// The current mapping.
    pub closed spec fn spec_mapping(&self) -> LevelStreamMapping {
        self.mapping
    }

    /// Every line handed to a writer, with the stream it went to, in order.
    pub closed spec fn spec_attempted(&self) -> Seq<(LevelStream, Seq<char>)> {
        self.attempted@
    }

    /// The lines handed to a writer that accepted them, each with the
    /// stream it went to, in order.
    pub closed spec fn spec_delivered(&self) -> Seq<(LevelStream, Seq<char>)> {
        self.delivered@
    }

    /// The writer standing for stdout.
    pub closed spec fn spec_stdout(&self) -> W {
        self.stdout
    }

    /// The writer standing for stderr.
    pub closed spec fn spec_stderr(&self) -> W {
        self.stderr
    }

    /// Creates a router with the given mapping and writers.
    pub fn with_writers(mapping: LevelStreamMapping, stdout: W, stderr: W) -> (r: Self)
        ensures
            r.spec_mapping() == mapping,
            r.spec_stdout() == stdout,
            r.spec_stderr() == stderr,
            r.spec_attempted() == Seq::<(LevelStream, Seq<char>)>::empty(),
            r.spec_delivered() == Seq::<(LevelStream, Seq<char>)>::empty(),
    {
        StreamRouter { mapping, stdout, stderr, attempted: Ghost(Seq::empty()), delivered: Ghost(Seq::empty()) }
    }

    /// Writes `msg` as one line to the stream `severity` maps to; the other
    /// stream is left untouched. A writer failure becomes `ExportError::Io`.
    pub fn write(&mut self, msg: &str, severity: Severity) -> (r: Result<(), ExportError>)
        ensures
            final(self).spec_mapping() == old(self).spec_mapping(),
            r is Ok || r is Err && r->Err_0 is Io,
            final(self).spec_attempted() == old(self).spec_attempted().push(
                (stream_for(old(self).spec_mapping(), severity), msg@),
            ),
            r is Ok ==> final(self).spec_delivered() == old(self).spec_delivered().push(
                (stream_for(old(self).spec_mapping(), severity), msg@),
            ),
            r is Err ==> final(self).spec_delivered() == old(self).spec_delivered(),
            stream_for(old(self).spec_mapping(), severity) == LevelStream::Stdout ==> {
                &&& final(self).spec_stdout().handed() == old(self).spec_stdout().handed().push(routed_outcome(msg@, r))
                &&& final(self).spec_stderr() == old(self).spec_stderr()
            },
            stream_for(old(self).spec_mapping(), severity) == LevelStream::Stderr ==> {
                &&& final(self).spec_stderr().handed() == old(self).spec_stderr().handed().push(routed_outcome(msg@, r))
                &&& final(self).spec_stdout() == old(self).spec_stdout()
            },
    {
        let stream = self.mapping.stream_for(severity);
        proof {
            self.attempted@ = self.attempted@.push((stream, msg@));
        }
        let res = match stream {
            LevelStream::Stdout => self.stdout.write_line(msg),
            LevelStream::Stderr => self.stderr.write_line(msg),
        };
        match res {
            Ok(()) => {
                proof {
                    self.delivered@ = self.delivered@.push((stream, msg@));
                }
                Ok(())
            },
            Err(e) => Err(ExportError::Io(e)),
        }
    }

    /// Returns the current mapping.
    pub fn mapping(&self) -> (r: &LevelStreamMapping)
        ensures
            *r == self.spec_mapping(),
    {
        &self.mapping
    }

    /// Sets a new level-to-stream mapping.
    pub fn set_mapping(&mut self, mapping: LevelStreamMapping)
        ensures
            final(self).spec_mapping() == mapping,
            final(self).spec_stdout() == old(self).spec_stdout(),
            final(self).spec_stderr() == old(self).spec_stderr(),
            final(self).spec_attempted() == old(self).spec_attempted(),
            final(self).spec_delivered() == old(self).spec_delivered(),
    {
        self.mapping = mapping;
    }

    /// Sets new writers for stdout and stderr.
    pub fn set_writers(&mut self, stdout: W, stderr: W)
        ensures
            final(self).spec_mapping() == old(self).spec_mapping(),
            final(self).spec_stdout() == stdout,
            final(self).spec_stderr() == stderr,
            final(self).spec_attempted() == old(self).spec_attempted(),
            final(self).spec_delivered() == old(self).spec_delivered(),
    {
        self.stdout = stdout;
        self.stderr = stderr;
    }

    /// The writer standing for stdout.
    pub fn stdout_writer(&self) -> (r: &W)
        ensures
            *r == self.spec_stdout(),
    {
        &self.stdout
    }

    /// The writer standing for stderr.
    pub fn stderr_writer(&self) -> (r: &W)
        ensures
            *r == self.spec_stderr(),
    {
        &self.stderr
    }
}

} // verus!
