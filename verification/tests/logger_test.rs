use kitlogger::attribute::{LogAttribute, Timestamp};
use kitlogger::emit_error::EmitError;
use kitlogger::logger::Logger;
use kitlogger::record::LogRecord;
use kitlogger::severity::Severity;
use kitlogger::validation::ValidationError;
use std::sync::{Arc, Mutex};

#[test]
fn logger_is_object_safe_box() {
    let _: Option<Box<dyn Logger>> = None;
}

#[test]
fn logger_is_object_safe_arc() {
    let _: Option<Arc<dyn Logger>> = None;
}

struct MockLogger {
    name: String,
    calls: Mutex<Vec<(Severity, String)>>,
}

impl MockLogger {
    fn new(name: &str) -> Self {
        MockLogger { name: name.to_string(), calls: Mutex::new(Vec::new()) }
    }

    fn recorded_calls(&self) -> Vec<(Severity, String)> {
        self.calls.lock().unwrap().clone()
    }
}

impl Logger for MockLogger {
    fn name(&self) -> &str {
        &self.name
    }

    fn log(&self, severity: Severity, message: &str, _attributes: &[LogAttribute]) -> Result<(), EmitError> {
        if message.is_empty() {
            return Err(EmitError::Validation(ValidationError::EmptyMessage));
        }
        self.calls.lock().unwrap().push((severity, message.to_string()));
        Ok(())
    }
}

#[test]
fn name_returns_logger_name() {
    let logger = MockLogger::new("my-logger");
    assert_eq!(logger.name(), "my-logger");
}

#[test]
fn trace_calls_log_with_trace_severity() {
    let logger = MockLogger::new("l");
    logger.trace("msg", &[]).unwrap();
    assert_eq!(logger.recorded_calls(), vec![(Severity::Trace, "msg".to_string())]);
}

#[test]
fn debug_calls_log_with_debug_severity() {
    let logger = MockLogger::new("l");
    logger.debug("msg", &[]).unwrap();
    assert_eq!(logger.recorded_calls(), vec![(Severity::Debug, "msg".to_string())]);
}

#[test]
fn info_calls_log_with_info_severity() {
    let logger = MockLogger::new("l");
    logger.info("msg", &[]).unwrap();
    assert_eq!(logger.recorded_calls(), vec![(Severity::Info, "msg".to_string())]);
}

#[test]
fn warn_calls_log_with_warn_severity() {
    let logger = MockLogger::new("l");
    logger.warn("msg", &[]).unwrap();
    assert_eq!(logger.recorded_calls(), vec![(Severity::Warn, "msg".to_string())]);
}

#[test]
fn error_calls_log_with_error_severity() {
    let logger = MockLogger::new("l");
    logger.error("msg", &[]).unwrap();
    assert_eq!(logger.recorded_calls(), vec![(Severity::Error, "msg".to_string())]);
}

#[test]
fn fatal_calls_log_with_fatal_severity() {
    let logger = MockLogger::new("l");
    logger.fatal("msg", &[]).unwrap();
    assert_eq!(logger.recorded_calls(), vec![(Severity::Fatal, "msg".to_string())]);
}

struct ValidatingLogger {
    name: String,
}

impl Logger for ValidatingLogger {
    fn name(&self) -> &str {
        &self.name
    }

    fn log(&self, severity: Severity, message: &str, attributes: &[LogAttribute]) -> Result<(), EmitError> {
        LogRecord::new(Timestamp::from_unix_secs(1_700_000_000), severity, message.to_string(), attributes.to_vec())
            .map(|_| ())
            .map_err(EmitError::from)
    }
}

#[test]
fn empty_message_returns_emit_error_validation_empty_message() {
    let logger = ValidatingLogger { name: "validator".to_string() };
    let result = logger.log(Severity::Info, "", &[]);
    assert_eq!(result, Err(EmitError::Validation(ValidationError::EmptyMessage)));
}
