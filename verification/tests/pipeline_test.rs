use kitlogger::attribute::{LogAttribute, LogAttributeValue, Timestamp};
use kitlogger::console::exporter::ConsoleExporterImpl;
use kitlogger::console::flush::{BatchFlush, OnShutdownFlush};
use kitlogger::console::stream_router::LineWriter;
use kitlogger::context::LogContext;
use kitlogger::formatter::LogFormat;
use kitlogger::pipeline::config::{BufferingConfig, ConfigLogFormat, LogLevel, RedactionConfig, SamplingConfig, SamplingStrategy};
use kitlogger::pipeline::logger::{KITLogger, LoggingConfig, PipelineError};
use kitlogger::record::LogRecord;
use kitlogger::severity::Severity;
use std::sync::{Arc, Mutex};

const MILLI: i64 = 1_000_000;

#[derive(Clone)]
struct TestWriter {
    buf: Arc<Mutex<String>>,
}

impl TestWriter {
    fn new() -> Self {
        TestWriter { buf: Arc::new(Mutex::new(String::new())) }
    }

    fn contents(&self) -> String {
        self.buf.lock().unwrap().clone()
    }

    fn is_empty(&self) -> bool {
        self.buf.lock().unwrap().is_empty()
    }
}

impl LineWriter for TestWriter {
    fn write_line(&mut self, line: &str) -> Result<(), String> {
        let mut b = self.buf.lock().unwrap();
        b.push_str(line);
        b.push('\n');
        Ok(())
    }
}

fn ts() -> Timestamp {
    Timestamp::from_unix_secs(1_781_949_600)
}

fn record(severity: Severity, message: &str) -> LogRecord {
    LogRecord::new(ts(), severity, message.to_string(), vec![]).expect("valid record")
}

fn make_logger(config: LoggingConfig) -> (KITLogger<OnShutdownFlush, TestWriter>, TestWriter, TestWriter) {
    let stdout = TestWriter::new();
    let stderr = TestWriter::new();
    let mut exporter = ConsoleExporterImpl::with_flush_strategy(OnShutdownFlush, stdout.clone(), stderr.clone());
    exporter.init().unwrap();
    let logger = KITLogger::from_logging_config_with_exporter(config, exporter, 0);
    (logger, stdout, stderr)
}

fn make_logger_with_capture(format: LogFormat) -> (KITLogger<OnShutdownFlush, TestWriter>, TestWriter, TestWriter) {
    let stdout = TestWriter::new();
    let stderr = TestWriter::new();
    let mut exporter = ConsoleExporterImpl::with_flush_strategy(OnShutdownFlush, stdout.clone(), stderr.clone());
    exporter.init().unwrap();
    let logger = KITLogger::with_exporter_and_format(exporter, format, 0);
    (logger, stdout, stderr)
}

fn assert_output_contains(out: &str, expected: &[&str]) {
    for substr in expected {
        assert!(out.contains(substr), "expected output to contain {substr:?}. Got: {out:?}");
    }
}

// ── Enabled gate, level filter, sampling, redaction ─────────────────────────

#[test]
fn disabled_config_performs_no_processing() {
    let config = LoggingConfig { enabled: false, ..LoggingConfig::default() };
    let (mut logger, stdout, stderr) = make_logger(config);
    let result = logger.log_record(&record(Severity::Fatal, "should not appear"), None, 0, true);
    assert!(result.is_ok());
    assert!(stdout.is_empty(), "Got: {:?}", stdout.contents());
    assert!(stderr.is_empty(), "Got: {:?}", stderr.contents());
}

#[test]
fn level_filtering_table() {
    let cases: &[(LogLevel, Severity, bool)] = &[
        (LogLevel::Warn, Severity::Info, false),
        (LogLevel::Error, Severity::Warn, false),
        (LogLevel::Warn, Severity::Warn, true),
        (LogLevel::Warn, Severity::Error, true),
        (LogLevel::Info, Severity::Info, true),
        (LogLevel::Error, Severity::Fatal, true),
        (LogLevel::Trace, Severity::Fatal, true),
    ];
    for (level, severity, should_proceed) in cases {
        let config = LoggingConfig { level: *level, ..LoggingConfig::default() };
        let (mut logger, stdout, stderr) = make_logger(config);
        logger.log_record(&record(*severity, "marker-text"), None, 0, true).expect("log_record must not error");
        let wrote_something = !stdout.is_empty() || !stderr.is_empty();
        assert_eq!(wrote_something, *should_proceed, "level={level:?} severity={severity:?}");
    }
}

#[test]
fn sampled_out_record_does_not_reach_later_stages() {
    let config = LoggingConfig {
        sampling: SamplingConfig { enabled: true, strategy: SamplingStrategy::EveryNth, n: 2, ..SamplingConfig::default() },
        ..LoggingConfig::default()
    };
    let (mut logger, stdout, _stderr) = make_logger(config);
    logger.log_record(&record(Severity::Info, "first-sampled-in"), None, 0, true).unwrap();
    let after_first = stdout.contents();
    assert!(after_first.contains("first-sampled-in"), "Got: {after_first:?}");
    logger.log_record(&record(Severity::Info, "second-sampled-out"), None, 0, true).unwrap();
    assert_eq!(stdout.contents(), after_first);
}

#[test]
fn dispatched_record_reflects_redaction() {
    let config = LoggingConfig {
        redact: RedactionConfig { enabled: true, fields: vec!["password".to_string()] },
        ..LoggingConfig::default()
    };
    let (mut logger, stdout, _stderr) = make_logger(config);
    let attr = LogAttribute::new("password".to_string(), LogAttributeValue::string("hunter2".to_string())).unwrap();
    let record_with_secret = LogRecord::new(ts(), Severity::Info, "login attempt".to_string(), vec![attr]).unwrap();
    logger.log_record(&record_with_secret, None, 0, true).unwrap();
    let out = stdout.contents();
    assert!(out.contains("**REDACTED**"), "Got: {out:?}");
    assert!(!out.contains("hunter2"), "Got: {out:?}");
}

// ── Buffering ───────────────────────────────────────────────────────────────

#[test]
fn buffering_defers_format_and_dispatch() {
    let config = LoggingConfig {
        buffering: BufferingConfig { enabled: true, batch_size: 3, flush_interval_ms: 60_000 },
        ..LoggingConfig::default()
    };
    let (mut logger, stdout, stderr) = make_logger(config);
    logger.log_record(&record(Severity::Info, "held-in-buffer"), None, 0, true).unwrap();
    assert!(stdout.is_empty() && stderr.is_empty());
}

#[test]
fn disabled_buffering_is_synchronous() {
    let config = LoggingConfig {
        buffering: BufferingConfig { enabled: false, ..BufferingConfig::default() },
        ..LoggingConfig::default()
    };
    let (mut logger, stdout, _stderr) = make_logger(config);
    logger.log_record(&record(Severity::Info, "immediate-dispatch"), None, 0, true).unwrap();
    assert!(stdout.contents().contains("immediate-dispatch"), "Got: {:?}", stdout.contents());
}

#[test]
fn emission_pipeline_test_batch_dispatch_failure_still_attempts_every_record() {
    let config = LoggingConfig {
        buffering: BufferingConfig { enabled: true, batch_size: 3, flush_interval_ms: 60_000 },
        ..LoggingConfig::default()
    };
    let (mut logger, _stdout, _stderr) = make_logger(config);
    logger.shutdown().expect("shutdown on an empty buffer must not error");
    logger.log_record(&record(Severity::Info, "one"), None, 0, true).expect("below batch_size");
    logger.log_record(&record(Severity::Info, "two"), None, 0, true).expect("below batch_size");
    let result = logger.log_record(&record(Severity::Info, "three"), None, 0, true);
    let err = result.expect_err("dispatch to a shut-down exporter must fail");
    let failure_count = err.message().matches("console:").count();
    assert_eq!(failure_count, 3, "Error: {}", err.message());
}

#[derive(Clone)]
struct CountingFailingWriter(Arc<Mutex<usize>>);

impl LineWriter for CountingFailingWriter {
    fn write_line(&mut self, _line: &str) -> Result<(), String> {
        *self.0.lock().unwrap() += 1;
        Err("permanently failing".to_string())
    }
}

#[test]
fn lib_batch_dispatch_failure_still_attempts_every_record() {
    let attempts = Arc::new(Mutex::new(0usize));
    let w = CountingFailingWriter(attempts.clone());
    let mut exporter = ConsoleExporterImpl::with_flush_strategy(OnShutdownFlush, w.clone(), w);
    exporter.init().unwrap();
    let config = LoggingConfig {
        buffering: BufferingConfig { enabled: true, batch_size: 3, flush_interval_ms: 60_000 },
        ..LoggingConfig::default()
    };
    let mut logger = KITLogger::from_logging_config_with_exporter(config, exporter, 0);
    logger.log_record(&record(Severity::Info, "one"), None, 0, true).unwrap();
    logger.log_record(&record(Severity::Info, "two"), None, 0, true).unwrap();
    let result = logger.log_record(&record(Severity::Info, "three"), None, 0, true);
    assert!(result.is_err());
    assert_eq!(*attempts.lock().unwrap(), 3);
}

#[test]
fn log_record_checks_time_based_flush_when_size_has_not_been_reached() {
    let stdout = TestWriter::new();
    let mut exporter = ConsoleExporterImpl::with_flush_strategy(OnShutdownFlush, stdout.clone(), stdout.clone());
    exporter.init().unwrap();
    let config = LoggingConfig {
        buffering: BufferingConfig { enabled: true, batch_size: 100, flush_interval_ms: 50 },
        ..LoggingConfig::default()
    };
    let mut logger = KITLogger::from_logging_config_with_exporter(config, exporter, 0);
    logger.log_record(&record(Severity::Info, "held-then-time-flushed"), None, 0, true).unwrap();
    assert!(stdout.is_empty(), "a single record below batch_size must not be dispatched yet");
    logger.log_record(&record(Severity::Info, "second"), None, 51 * MILLI, true).unwrap();
    let out = stdout.contents();
    assert!(out.contains("held-then-time-flushed") && out.contains("second"), "Got: {out:?}");
}

#[test]
fn shutdown_drains_buffered_records() {
    let config = LoggingConfig {
        buffering: BufferingConfig { enabled: true, batch_size: 100, flush_interval_ms: 60_000 },
        ..LoggingConfig::default()
    };
    let (mut logger, stdout, _stderr) = make_logger(config);
    logger.log_record(&record(Severity::Info, "record-one"), None, 0, true).unwrap();
    logger.log_record(&record(Severity::Info, "record-two"), None, 0, true).unwrap();
    assert!(stdout.is_empty(), "Got: {:?}", stdout.contents());
    logger.shutdown().expect("shutdown must not error");
    let out = stdout.contents();
    assert!(out.contains("record-one") && out.contains("record-two"), "Got: {out:?}");
}

#[test]
fn flush_drains_buffered_records_in_order() {
    let config = LoggingConfig {
        buffering: BufferingConfig { enabled: true, batch_size: 100, flush_interval_ms: 60_000 },
        format: ConfigLogFormat::Text,
        ..LoggingConfig::default()
    };
    let (mut logger, stdout, _stderr) = make_logger(config);
    logger.log_record(&record(Severity::Info, "a"), None, 0, true).unwrap();
    logger.log_record(&record(Severity::Debug, "b"), None, 0, true).unwrap();
    logger.flush().unwrap();
    assert_eq!(stdout.contents(), "[INFO] a\n[DEBUG] b\n");
    logger.flush().unwrap();
    assert_eq!(stdout.contents(), "[INFO] a\n[DEBUG] b\n");
}

#[test]
fn flushed_records_use_the_configured_format() {
    let config = LoggingConfig { format: ConfigLogFormat::Text, ..LoggingConfig::default() };
    let (mut logger, stdout, stderr) = make_logger(config);
    logger.log_record(&record(Severity::Info, "format-selection-marker"), None, 0, true).unwrap();
    let out = stdout.contents() + &stderr.contents();
    assert!(out.contains("[INFO] format-selection-marker"), "Got: {out:?}");
    assert!(!out.trim_start().starts_with('{'), "Got: {out:?}");
}

#[test]
fn console_registered_by_default_no_file() {
    let (logger, _stdout, _stderr) = make_logger(LoggingConfig::default());
    let ids: Vec<String> = logger.registered_output_ids().iter().map(|id| id.to_string()).collect();
    assert!(ids.iter().any(|id| id.contains("console")), "Got ids: {ids:?}");
    assert!(!ids.iter().any(|id| id.contains("file")), "Got ids: {ids:?}");
}

#[test]
fn dispatch_delivers_exactly_once() {
    let (mut logger, stdout, stderr) = make_logger(LoggingConfig::default());
    logger.log_record(&record(Severity::Info, "single-delivery-marker"), None, 0, true).unwrap();
    let out = stdout.contents() + &stderr.contents();
    assert_eq!(out.matches("single-delivery-marker").count(), 1, "Got: {out:?}");
}

#[test]
fn console_flush_strategy_and_pipeline_buffer_compose() {
    let stdout = TestWriter::new();
    let stderr = TestWriter::new();
    let mut exporter = ConsoleExporterImpl::with_flush_strategy(BatchFlush::new(2), stdout.clone(), stderr.clone());
    exporter.init().unwrap();
    let config = LoggingConfig {
        buffering: BufferingConfig { enabled: true, batch_size: 2, flush_interval_ms: 60_000 },
        ..LoggingConfig::default()
    };
    let mut logger = KITLogger::from_logging_config_with_exporter(config, exporter, 0);
    logger.log_record(&record(Severity::Info, "combo-one"), None, 0, true).unwrap();
    assert!(stdout.is_empty(), "Got: {:?}", stdout.contents());
    logger.log_record(&record(Severity::Info, "combo-two"), None, 0, true).unwrap();
    let out = stdout.contents();
    assert!(out.contains("combo-one") && out.contains("combo-two"), "Got: {out:?}");
}

// ── Construction from a logging configuration ───────────────────────────────

#[test]
fn constructs_from_valid_logging_config() {
    let logger = KITLogger::from_logging_config(LoggingConfig::default(), TestWriter::new(), TestWriter::new(), 0);
    assert_eq!(logger.registered_output_ids().len(), 1);
}

#[test]
fn enabled_false_now_short_circuits_before_dispatch() {
    let disabled_config = LoggingConfig { enabled: false, ..LoggingConfig::default() };
    let mut logger_enabled = KITLogger::from_logging_config(LoggingConfig::default(), TestWriter::new(), TestWriter::new(), 0);
    let mut logger_disabled = KITLogger::from_logging_config(disabled_config, TestWriter::new(), TestWriter::new(), 0);
    let record = LogRecord::new(Timestamp::unix_epoch(), Severity::Info, "hello".to_string(), vec![]).unwrap();
    assert!(logger_disabled.log_record(&record, None, 0, true).is_ok());
    assert!(logger_enabled.log_record(&record, None, 0, true).is_err());
    assert!(logger_disabled.log(Severity::Info, "hello", Timestamp::unix_epoch(), 0, true).is_ok());
    assert!(logger_enabled.log(Severity::Info, "hello", Timestamp::unix_epoch(), 0, true).is_err());
}

#[test]
fn kitlogger_new_still_constructs() {
    let _logger = KITLogger::new(TestWriter::new(), TestWriter::new(), 0);
}

#[test]
fn kitlogger_with_format_still_constructs() {
    let _logger = KITLogger::with_format(LogFormat::Json, TestWriter::new(), TestWriter::new(), 0);
}

#[test]
fn init_twice_is_refused() {
    let mut logger = KITLogger::new(TestWriter::new(), TestWriter::new(), 0);
    assert!(logger.init().is_ok());
    assert!(matches!(logger.init(), Err(PipelineError::InitializationFailed(_))));
}

#[test]
fn log_refuses_an_empty_message() {
    let (mut logger, stdout, _stderr) = make_logger_with_capture(LogFormat::Json);
    let r = logger.log(Severity::Info, "", ts(), 0, true);
    assert_eq!(r, Err(PipelineError::InitializationFailed("Message cannot be empty".to_string())));
    assert!(stdout.is_empty());
}

// ── Formatting pipeline ─────────────────────────────────────────────────────

#[test]
fn log_record_json_format_produces_json_output() {
    let (mut logger, stdout, _stderr) = make_logger_with_capture(LogFormat::Json);
    let record = LogRecord::new(ts(), Severity::Info, "login ok".to_string(), vec![]).unwrap();
    logger.log_record(&record, None, 0, true).expect("log_record should succeed");
    assert_output_contains(&stdout.contents(), &[r#""level":"INFO""#, r#""msg":"login ok""#]);
}

#[test]
fn log_record_text_format_with_logger_context() {
    let (mut logger, stdout, _stderr) = make_logger_with_capture(LogFormat::Text);
    let record = LogRecord::new(ts(), Severity::Info, "login ok".to_string(), vec![]).unwrap();
    let mut ctx = LogContext::new();
    ctx.add_attribute(LogAttribute::new("logger".to_string(), LogAttributeValue::String("auth".to_string())).unwrap())
        .unwrap();
    logger.log_record(&record, Some(&ctx), 0, true).expect("log_record should succeed");
    let out = stdout.contents();
    assert!(out.contains("[INFO] auth: login ok"), "Got: {out:?}");
}

#[test]
fn log_record_human_readable_format_basic() {
    let (mut logger, stdout, _stderr) = make_logger_with_capture(LogFormat::HumanReadable);
    let attrs = vec![LogAttribute::new("service".to_string(), LogAttributeValue::String("api".to_string())).unwrap()];
    let record = LogRecord::new(ts(), Severity::Info, "login ok".to_string(), attrs).unwrap();
    logger.log_record(&record, None, 0, true).expect("log_record should succeed");
    assert_output_contains(&stdout.contents(), &["INFO", "login ok", "service=api"]);
}

#[test]
fn log_record_logfmt_format_produces_kv_pairs() {
    let (mut logger, _stdout, stderr) = make_logger_with_capture(LogFormat::Logfmt);
    let record = LogRecord::new(ts(), Severity::Warn, "slow query".to_string(), vec![]).unwrap();
    logger.log_record(&record, None, 0, true).expect("log_record should succeed");
    assert_output_contains(&stderr.contents(), &["level=WARN", r#"msg="slow query""#]);
}

#[test]
fn log_json_format_produces_json_output() {
    let (mut logger, stdout, _stderr) = make_logger_with_capture(LogFormat::Json);
    logger.log(Severity::Info, "login ok", ts(), 0, true).expect("log should succeed");
    assert_output_contains(&stdout.contents(), &[r#""level":"INFO""#, r#""msg":"login ok""#]);
}

#[test]
fn log_text_format_produces_text_output() {
    let (mut logger, stdout, _stderr) = make_logger_with_capture(LogFormat::Text);
    logger.log(Severity::Info, "login ok", ts(), 0, true).expect("log should succeed");
    assert_output_contains(&stdout.contents(), &["[INFO] login ok"]);
}

#[test]
fn log_human_readable_format_basic() {
    let (mut logger, stdout, _stderr) = make_logger_with_capture(LogFormat::HumanReadable);
    logger.log(Severity::Info, "login ok", ts(), 0, true).expect("log should succeed");
    assert_output_contains(&stdout.contents(), &["INFO", "login ok"]);
}

#[test]
fn log_logfmt_format_produces_kv_pairs() {
    let (mut logger, _stdout, stderr) = make_logger_with_capture(LogFormat::Logfmt);
    logger.log(Severity::Warn, "slow query", ts(), 0, true).expect("log should succeed");
    let out = stderr.contents();
    assert_output_contains(&out, &["level=WARN", r#"msg="slow query""#]);
    assert!(!out.contains("[WARN]"), "Got: {out:?}");
}

#[test]
fn log_record_error_severity_goes_to_stderr() {
    let (mut logger, _stdout, stderr) = make_logger_with_capture(LogFormat::Text);
    let record = LogRecord::new(ts(), Severity::Error, "db failure".to_string(), vec![]).unwrap();
    logger.log_record(&record, None, 0, true).expect("log_record should succeed");
    assert_output_contains(&stderr.contents(), &["db failure"]);
}

#[test]
fn log_error_severity_goes_to_stderr() {
    let (mut logger, _stdout, stderr) = make_logger_with_capture(LogFormat::Text);
    logger.log(Severity::Error, "db failure", ts(), 0, true).expect("log should succeed");
    assert_output_contains(&stderr.contents(), &["db failure"]);
}

#[test]
fn log_compat_method_still_works() {
    let (mut logger, stdout, _stderr) = make_logger_with_capture(LogFormat::Text);
    logger.log(Severity::Info, "raw passthrough", ts(), 0, true).expect("log should succeed");
    assert!(stdout.contents().contains("raw passthrough"), "Got: {:?}", stdout.contents());
}

#[test]
fn batch_failure_message_joins_every_failure_in_order() {
    let attempts = Arc::new(Mutex::new(0usize));
    let w = CountingFailingWriter(attempts.clone());
    let mut exporter = ConsoleExporterImpl::with_flush_strategy(OnShutdownFlush, w.clone(), w);
    exporter.init().unwrap();
    let config = LoggingConfig {
        buffering: BufferingConfig { enabled: true, batch_size: 2, flush_interval_ms: 60_000 },
        ..LoggingConfig::default()
    };
    let mut logger = KITLogger::from_logging_config_with_exporter(config, exporter, 0);
    logger.log_record(&record(Severity::Info, "one"), None, 0, true).unwrap();
    match logger.log_record(&record(Severity::Info, "two"), None, 0, true) {
        Err(PipelineError::InitializationFailed(m)) => assert_eq!(
            m,
            "console: I/O error: permanently failing; console: I/O error: permanently failing"
        ),
        other => panic!("Expected InitializationFailed, got: {:?}", other),
    }
}
