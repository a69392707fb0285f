use kitlogger::console::error::ExportError;
use kitlogger::console::exporter::ConsoleExporterImpl;
use kitlogger::console::flush::{ImmediateFlush, OnShutdownFlush};
use kitlogger::console::stream_router::{LevelStream, LevelStreamMapping, LineWriter};
use kitlogger::severity::Severity;
use std::sync::{Arc, Mutex};

#[derive(Clone)]
struct TestWriter {
    buf: Arc<Mutex<String>>,
}

impl TestWriter {
    fn new() -> Self {
        TestWriter { buf: Arc::new(Mutex::new(String::new())) }
    }

    fn contents(&self) -> String {
        self.buf.lock().unwrap().clone()
    }

    fn clear(&self) {
        self.buf.lock().unwrap().clear();
    }
}

impl LineWriter for TestWriter {
    fn write_line(&mut self, line: &str) -> Result<(), String> {
        let mut b = self.buf.lock().unwrap();
        b.push_str(line);
        b.push('\n');
        Ok(())
    }
}

#[derive(Clone)]
struct FailingWriter;

impl LineWriter for FailingWriter {
    fn write_line(&mut self, _line: &str) -> Result<(), String> {
        Err("broken pipe".to_string())
    }
}

fn make_exporter() -> (ConsoleExporterImpl<ImmediateFlush, TestWriter>, TestWriter, TestWriter) {
    let stdout = TestWriter::new();
    let stderr = TestWriter::new();
    let mut exporter = ConsoleExporterImpl::new(stdout.clone(), stderr.clone());
    exporter.init().unwrap();
    (exporter, stdout, stderr)
}

#[test]
fn deliver_formatted_string_writes_to_stdout() {
    let (mut exporter, stdout, stderr) = make_exporter();
    exporter.export("Hello, console!", Severity::Info).unwrap();
    assert!(stdout.contents().contains("Hello, console!"), "Info message should appear on stdout");
    assert!(stderr.contents().is_empty(), "Info message should NOT appear on stderr");
}

#[test]
fn error_output_writes_to_stderr() {
    let (mut exporter, stdout, stderr) = make_exporter();
    exporter.export("Error occurred", Severity::Error).unwrap();
    assert!(stderr.contents().contains("Error occurred"), "Error message should appear on stderr");
    assert!(stdout.contents().is_empty(), "Error message should NOT appear on stdout");
}

#[test]
fn empty_string_is_forwarded_without_error() {
    let (mut exporter, stdout, stderr) = make_exporter();
    let result = exporter.export("", Severity::Info);
    assert!(result.is_ok(), "Empty string should not error");
    assert!(!stdout.contents().is_empty(), "Empty string should still be written (as a newline)");
    assert!(stderr.contents().is_empty());
}

#[test]
fn normal_lifecycle_init_deliver_flush_shutdown() {
    let stdout = TestWriter::new();
    let stderr = TestWriter::new();
    let mut exporter = ConsoleExporterImpl::new(stdout.clone(), stderr.clone());
    assert!(exporter.init().is_ok(), "init should succeed");
    assert!(exporter.export("mid", Severity::Info).is_ok());
    assert!(stdout.contents().contains("mid"));
    assert!(exporter.flush().is_ok());
    assert!(exporter.shutdown().is_ok());
}

#[test]
fn delivery_after_shutdown_returns_error() {
    let (mut exporter, _stdout, _stderr) = make_exporter();
    exporter.shutdown().unwrap();
    let result = exporter.export("after shutdown", Severity::Info);
    assert!(result.is_err(), "Delivery after shutdown should return an error");
    match result {
        Err(ExportError::Lifecycle(_)) => {},
        other => panic!("Expected Lifecycle error, got: {:?}", other),
    }
}

#[test]
fn on_shutdown_flush_writes_buffered_content_on_shutdown() {
    let stdout = TestWriter::new();
    let stderr = TestWriter::new();
    let mut exporter = ConsoleExporterImpl::with_flush_strategy(OnShutdownFlush, stdout.clone(), stderr.clone());
    exporter.init().unwrap();
    exporter.export("buffered msg", Severity::Info).unwrap();
    assert!(exporter.shutdown().is_ok(), "shutdown should succeed");
}

#[test]
fn write_failure_during_flush_returns_error() {
    let mut exporter = ConsoleExporterImpl::new(FailingWriter, FailingWriter);
    exporter.init().unwrap();
    let result = exporter.export("test", Severity::Info);
    assert!(result.is_err(), "Write failure should return error");
    match result {
        Err(ExportError::Io(_)) => {},
        other => panic!("Expected Io error, got: {:?}", other),
    }
}

#[test]
fn custom_mapping_warn_to_stdout_via_exporter() {
    let stdout = TestWriter::new();
    let stderr = TestWriter::new();
    let mut exporter = ConsoleExporterImpl::new(stdout.clone(), stderr.clone());
    exporter.set_mapping(LevelStreamMapping {
        debug: LevelStreamMapping::default().debug,
        info: LevelStreamMapping::default().info,
        warn: LevelStream::Stdout,
        error: LevelStreamMapping::default().error,
        fatal: LevelStreamMapping::default().fatal,
    });
    exporter.init().unwrap();
    exporter.export("warning msg", Severity::Warn).unwrap();
    assert!(stdout.contents().contains("warning msg"), "With custom mapping, WARN should go to stdout");
    assert!(stderr.contents().is_empty(), "With custom mapping, WARN should NOT go to stderr");
}

#[test]
fn multiple_severities_to_correct_streams() {
    let (mut exporter, stdout, stderr) = make_exporter();
    exporter.export("debug info", Severity::Debug).unwrap();
    assert!(stdout.contents().contains("debug info"));
    stdout.clear();
    exporter.export("error info", Severity::Error).unwrap();
    assert!(stderr.contents().contains("error info"));
    stderr.clear();
    exporter.export("fatal info", Severity::Fatal).unwrap();
    assert!(stderr.contents().contains("fatal info"));
}

#[test]
fn export_before_init_is_refused() {
    let mut exporter = ConsoleExporterImpl::new(TestWriter::new(), TestWriter::new());
    let err = exporter.export("early", Severity::Info).unwrap_err();
    assert_eq!(err, ExportError::Lifecycle("Exporter is not running".to_string()));
    assert_eq!(err.message(), "lifecycle error: Exporter is not running");
}

#[test]
fn second_init_is_refused() {
    let (mut exporter, _o, _e) = make_exporter();
    let err = exporter.init().unwrap_err();
    assert_eq!(err, ExportError::Lifecycle("Invalid lifecycle transition".to_string()));
}

#[test]
fn shutdown_before_init_is_refused_and_leaves_exporter_uninitialized() {
    let stdout = TestWriter::new();
    let stderr = TestWriter::new();
    let mut exporter = ConsoleExporterImpl::with_flush_strategy(OnShutdownFlush, stdout.clone(), stderr.clone());
    match exporter.shutdown() {
        Err(ExportError::Lifecycle(m)) => assert_eq!(m, "Invalid lifecycle transition"),
        other => panic!("Expected Lifecycle error, got: {:?}", other),
    }
    // still uninitialized: init is accepted only from there
    assert!(exporter.init().is_ok());
}

#[test]
fn shut_down_exporter_refuses_export_and_second_shutdown() {
    let stdout = TestWriter::new();
    let stderr = TestWriter::new();
    let mut exporter = ConsoleExporterImpl::with_flush_strategy(OnShutdownFlush, stdout.clone(), stderr.clone());
    exporter.init().unwrap();
    assert!(exporter.export("msg", Severity::Info).is_ok());
    assert!(exporter.shutdown().is_ok());
    match exporter.export("late", Severity::Info) {
        Err(ExportError::Lifecycle(m)) => assert_eq!(m, "Exporter is not running"),
        other => panic!("Expected Lifecycle error, got: {:?}", other),
    }
    assert!(matches!(exporter.shutdown(), Err(ExportError::Lifecycle(_))));
    assert_eq!(stdout.contents(), "msg\n");
    assert!(stderr.contents().is_empty());
}
