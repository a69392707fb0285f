use kitlogger::console::error::ExportError;
use kitlogger::console::stream_router::{LevelStream, LevelStreamMapping, LineWriter, StreamRouter};
use kitlogger::severity::Severity;
use std::sync::{Arc, Mutex};

#[derive(Clone)]
struct TestWriter {
    buf: Arc<Mutex<String>>,
}

impl TestWriter {
    fn new() -> Self {
        TestWriter { buf: Arc::new(Mutex::new(String::new())) }
    }

    fn contents(&self) -> String {
        self.buf.lock().unwrap().clone()
    }

    fn clear(&self) {
        self.buf.lock().unwrap().clear();
    }
}

impl LineWriter for TestWriter {
    fn write_line(&mut self, line: &str) -> Result<(), String> {
        let mut b = self.buf.lock().unwrap();
        b.push_str(line);
        b.push('\n');
        Ok(())
    }
}

struct FailingWriter;

impl LineWriter for FailingWriter {
    fn write_line(&mut self, _line: &str) -> Result<(), String> {
        Err("broken pipe".to_string())
    }
}

fn make_router() -> (StreamRouter<TestWriter>, TestWriter, TestWriter) {
    make_router_with_mapping(LevelStreamMapping::default())
}

fn make_router_with_mapping(mapping: LevelStreamMapping) -> (StreamRouter<TestWriter>, TestWriter, TestWriter) {
    let stdout_writer = TestWriter::new();
    let stderr_writer = TestWriter::new();
    let router = StreamRouter::with_writers(mapping, stdout_writer.clone(), stderr_writer.clone());
    (router, stdout_writer, stderr_writer)
}

#[test]
fn info_routes_to_individual_info_field_not_debug() {
    let mapping = LevelStreamMapping {
        debug: LevelStream::Stdout,
        info: LevelStream::Stderr,
        warn: LevelStream::Stderr,
        error: LevelStream::Stderr,
        fatal: LevelStream::Stderr,
    };
    let (mut router, stdout, stderr) = make_router_with_mapping(mapping);
    router.write("info msg", Severity::Info).unwrap();
    assert!(stdout.contents().is_empty(), "Info should NOT go to stdout when info field is Stderr");
    assert!(stderr.contents().contains("info msg"), "Info should go to stderr when info field is Stderr");
}

#[test]
fn error_routes_to_individual_error_field_not_warn() {
    let mapping = LevelStreamMapping {
        debug: LevelStream::Stdout,
        info: LevelStream::Stdout,
        warn: LevelStream::Stderr,
        error: LevelStream::Stdout,
        fatal: LevelStream::Stderr,
    };
    let (mut router, stdout, stderr) = make_router_with_mapping(mapping);
    router.write("error msg", Severity::Error).unwrap();
    assert!(stderr.contents().is_empty(), "Error should NOT go to stderr when error field is Stdout");
    assert!(stdout.contents().contains("error msg"), "Error should go to stdout when error field is Stdout");
}

#[test]
fn default_mapping_routes_correctly() {
    let (mut router, stdout, stderr) = make_router();

    router.write("debug msg", Severity::Debug).unwrap();
    assert!(stdout.contents().contains("debug msg"), "Debug should go to stdout");
    assert!(stderr.contents().is_empty(), "Debug should NOT go to stderr");

    stdout.clear();
    stderr.clear();

    router.write("error msg", Severity::Error).unwrap();
    assert!(stderr.contents().contains("error msg"), "Error should go to stderr");
    assert!(stdout.contents().is_empty(), "Error should NOT go to stdout");

    stderr.clear();

    router.write("fatal msg", Severity::Fatal).unwrap();
    assert!(stderr.contents().contains("fatal msg"), "Fatal should go to stderr");
    assert!(stdout.contents().is_empty(), "Fatal should NOT go to stdout");
}

#[test]
fn trace_routes_to_debug_field() {
    let mapping = LevelStreamMapping {
        debug: LevelStream::Stderr,
        info: LevelStream::Stdout,
        warn: LevelStream::Stdout,
        error: LevelStream::Stdout,
        fatal: LevelStream::Stdout,
    };
    let (mut router, stdout, stderr) = make_router_with_mapping(mapping);
    router.write("trace msg", Severity::Trace).unwrap();
    assert!(stderr.contents().contains("trace msg"), "Trace should route to the debug field (Stderr)");
    assert!(stdout.contents().is_empty(), "Trace should NOT go to stdout when debug field is Stderr");
}

#[test]
fn custom_mapping_warn_to_stdout() {
    let mapping = LevelStreamMapping {
        debug: LevelStream::Stdout,
        info: LevelStream::Stdout,
        warn: LevelStream::Stdout,
        error: LevelStream::Stderr,
        fatal: LevelStream::Stderr,
    };
    let (mut router, stdout, stderr) = make_router_with_mapping(mapping);
    router.write("warn msg", Severity::Warn).unwrap();
    assert!(stdout.contents().contains("warn msg"), "Warn should go to stdout when mapping.warn is Stdout");
    assert!(stderr.contents().is_empty(), "Warn should NOT go to stderr when mapping.warn is Stdout");
}

#[test]
fn custom_mapping_fatal_to_stdout() {
    let mapping = LevelStreamMapping {
        debug: LevelStream::Stdout,
        info: LevelStream::Stdout,
        warn: LevelStream::Stderr,
        error: LevelStream::Stderr,
        fatal: LevelStream::Stdout,
    };
    let (mut router, stdout, stderr) = make_router_with_mapping(mapping);
    router.write("fatal msg", Severity::Fatal).unwrap();
    assert!(stdout.contents().contains("fatal msg"), "Fatal should go to stdout when mapping.fatal is Stdout");
    assert!(stderr.contents().is_empty(), "Fatal should NOT go to stderr when mapping.fatal is Stdout");
}

#[test]
fn reversed_mapping_all_routes_correct() {
    let mapping = LevelStreamMapping {
        debug: LevelStream::Stderr,
        info: LevelStream::Stderr,
        warn: LevelStream::Stdout,
        error: LevelStream::Stdout,
        fatal: LevelStream::Stdout,
    };
    let (mut router, stdout, stderr) = make_router_with_mapping(mapping);

    router.write("debug on stderr", Severity::Debug).unwrap();
    assert!(stderr.contents().contains("debug on stderr"));

    stderr.clear();
    router.write("info on stderr", Severity::Info).unwrap();
    assert!(stderr.contents().contains("info on stderr"));

    stderr.clear();
    router.write("warn on stdout", Severity::Warn).unwrap();
    assert!(stdout.contents().contains("warn on stdout"));
}

#[test]
fn write_error_returns_err_without_panic() {
    let mut router = StreamRouter::with_writers(LevelStreamMapping::default(), FailingWriter, FailingWriter);
    let result = router.write("test", Severity::Info);
    assert!(result.is_err(), "Write failure should return an error");
    match result {
        Err(ExportError::Io(_)) => {},
        _ => panic!("Expected ExportError::Io, got: {:?}", result),
    }
}

#[test]
fn set_mapping_updates_routing() {
    let (mut router, stdout, stderr) = make_router();

    router.write("first", Severity::Info).unwrap();
    assert!(stdout.contents().contains("first"));
    stdout.clear();

    let new_mapping = LevelStreamMapping {
        debug: LevelStream::Stdout,
        info: LevelStream::Stderr,
        warn: LevelStream::Stderr,
        error: LevelStream::Stderr,
        fatal: LevelStream::Stderr,
    };
    router.set_mapping(new_mapping);

    router.write("second", Severity::Info).unwrap();
    assert!(stderr.contents().contains("second"), "After set_mapping, info should go to stderr");
}

#[test]
fn set_writers_replaces_output() {
    let mapping = LevelStreamMapping::default();
    let stdout1 = TestWriter::new();
    let stderr1 = TestWriter::new();
    let mut router = StreamRouter::with_writers(mapping, stdout1.clone(), stderr1.clone());

    router.write("before", Severity::Info).unwrap();
    assert!(stdout1.contents().contains("before"));

    let stdout2 = TestWriter::new();
    let stderr2 = TestWriter::new();
    router.set_writers(stdout2.clone(), stderr2.clone());

    router.write("after", Severity::Info).unwrap();
    assert!(!stdout1.contents().contains("after"), "Old writer should not receive new writes");
    assert!(stdout2.contents().contains("after"), "New writer should receive writes");
}

#[test]
fn write_appends_exactly_the_line_and_a_newline() {
    let (mut router, stdout, _stderr) = make_router();
    router.write("one", Severity::Info).unwrap();
    router.write("two", Severity::Warn).unwrap();
    assert_eq!(stdout.contents(), "one\n");
}

#[test]
fn io_error_message_carries_writer_text() {
    let mut router = StreamRouter::with_writers(LevelStreamMapping::default(), FailingWriter, FailingWriter);
    let err = router.write("x", Severity::Error).unwrap_err();
    assert_eq!(err, ExportError::Io("broken pipe".to_string()));
    assert_eq!(err.message(), "I/O error: broken pipe");
}
