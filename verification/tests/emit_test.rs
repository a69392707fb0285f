use kitlogger::attribute::{FloatValue, LogAttribute, LogAttributeValue};
use kitlogger::context::LogContext;
use kitlogger::emit::{fold_context, IntoAttributeValue};
use kitlogger::emit_error::EmitError;
use kitlogger::ids::{CorrelationId, SpanId, TraceId};
use kitlogger::logger::Logger;
use kitlogger::severity::Severity;
use kitlogger::validation::ValidationError;
use std::sync::Mutex;

fn fv(f: f64) -> FloatValue {
    FloatValue {
        bits: f.to_bits(),
        text: f.to_string(),
        debug_text: format!("{:?}", f),
        json_text: match serde_json::Number::from_f64(f) {
            Some(n) => n.to_string(),
            None => String::new(),
        },
    }
}

fn attr<V: IntoAttributeValue>(name: &str, v: V) -> Result<LogAttribute, EmitError> {
    Ok(LogAttribute::new(name.to_string(), v.into_attribute_value())?)
}

struct MockLogger {
    name: String,
    calls: Mutex<Vec<(Severity, String, Vec<LogAttribute>)>>,
    forced_error: Option<EmitError>,
}

impl MockLogger {
    fn new(name: &str) -> Self {
        MockLogger { name: name.to_string(), calls: Mutex::new(Vec::new()), forced_error: None }
    }

    fn with_error(name: &str, err: EmitError) -> Self {
        MockLogger { name: name.to_string(), calls: Mutex::new(Vec::new()), forced_error: Some(err) }
    }

    fn recorded(&self) -> Vec<(Severity, String, Vec<LogAttribute>)> {
        self.calls.lock().unwrap().clone()
    }
}

impl Logger for MockLogger {
    fn name(&self) -> &str {
        &self.name
    }

    fn log(&self, severity: Severity, message: &str, attributes: &[LogAttribute]) -> Result<(), EmitError> {
        if let Some(ref err) = self.forced_error {
            return Err(err.clone());
        }
        if message.is_empty() {
            return Err(EmitError::Validation(ValidationError::EmptyMessage));
        }
        self.calls.lock().unwrap().push((severity, message.to_string(), attributes.to_vec()));
        Ok(())
    }
}

// ── IntoAttributeValue ──────────────────────────────────────────────────────

#[test]
fn into_attribute_value_str() {
    assert_eq!((&"prod").into_attribute_value(), LogAttributeValue::String("prod".to_string()));
}

#[test]
fn into_attribute_value_string() {
    assert_eq!("owned".to_string().into_attribute_value(), LogAttributeValue::String("owned".to_string()));
}

#[test]
fn into_attribute_value_i64() {
    assert_eq!(42i64.into_attribute_value(), LogAttributeValue::Integer(42));
}

#[test]
fn into_attribute_value_f64() {
    assert_eq!(fv(0.42).into_attribute_value(), LogAttributeValue::Float(fv(0.42)));
}

#[test]
fn into_attribute_value_bool() {
    assert_eq!(true.into_attribute_value(), LogAttributeValue::Boolean(true));
    assert_eq!(false.into_attribute_value(), LogAttributeValue::Boolean(false));
}

// ── Calls at a level: bare, formatted, with attributes, with a context ──────

#[test]
fn info_bare_message() -> Result<(), EmitError> {
    let logger = MockLogger::new("l");
    logger.info("hello", &[])?;
    let calls = logger.recorded();
    assert_eq!(calls.len(), 1);
    assert_eq!(calls[0].0, Severity::Info);
    assert_eq!(calls[0].1, "hello");
    assert!(calls[0].2.is_empty());
    Ok(())
}

#[test]
fn info_format_args() -> Result<(), EmitError> {
    let logger = MockLogger::new("l");
    let name = "world";
    logger.info(&format!("hello {}", name), &[])?;
    let calls = logger.recorded();
    assert_eq!(calls[0].1, "hello world");
    assert_eq!(calls[0].0, Severity::Info);
    Ok(())
}

#[test]
fn info_single_attr() -> Result<(), EmitError> {
    let logger = MockLogger::new("l");
    logger.info("login", &[attr("user_id", 42i64)?])?;
    let calls = logger.recorded();
    assert_eq!(calls[0].0, Severity::Info);
    assert_eq!(calls[0].2.len(), 1);
    assert_eq!(calls[0].2[0].name(), "user_id");
    assert_eq!(calls[0].2[0].value(), &LogAttributeValue::Integer(42));
    Ok(())
}

#[test]
fn info_multi_attr() -> Result<(), EmitError> {
    let logger = MockLogger::new("l");
    logger.info("order", &[attr("order_id", "abc")?, attr("amount", fv(9.99))?])?;
    let calls = logger.recorded();
    assert_eq!(calls[0].2.len(), 2);
    assert_eq!(calls[0].2[0].name(), "order_id");
    assert_eq!(calls[0].2[0].value(), &LogAttributeValue::String("abc".to_string()));
    assert_eq!(calls[0].2[1].name(), "amount");
    assert_eq!(calls[0].2[1].value(), &LogAttributeValue::Float(fv(9.99)));
    Ok(())
}

#[test]
fn info_ctx_bare() -> Result<(), EmitError> {
    let logger = MockLogger::new("l");
    let ctx = LogContext::new().with_correlation_id(CorrelationId::new("req-1".to_string())).unwrap();
    logger.info("msg", &fold_context(&ctx, vec![])?)?;
    let calls = logger.recorded();
    assert_eq!(calls[0].0, Severity::Info);
    assert_eq!(calls[0].2.len(), 1);
    assert_eq!(calls[0].2[0].name(), "correlation_id");
    assert_eq!(calls[0].2[0].value(), &LogAttributeValue::String("req-1".to_string()));
    Ok(())
}

#[test]
fn info_ctx_with_attr() -> Result<(), EmitError> {
    let logger = MockLogger::new("l");
    let ctx = LogContext::new().with_correlation_id(CorrelationId::new("req-2".to_string())).unwrap();
    logger.info("msg", &fold_context(&ctx, vec![attr("service", "auth")?])?)?;
    let calls = logger.recorded();
    assert_eq!(calls[0].2.len(), 2);
    assert_eq!(calls[0].2[0].name(), "correlation_id");
    assert_eq!(calls[0].2[1].name(), "service");
    assert_eq!(calls[0].2[1].value(), &LogAttributeValue::String("auth".to_string()));
    Ok(())
}

#[test]
fn fold_ctx_correlation_id_only() -> Result<(), EmitError> {
    let logger = MockLogger::new("l");
    let ctx = LogContext::new().with_correlation_id(CorrelationId::new("req-1".to_string())).unwrap();
    logger.info("msg", &fold_context(&ctx, vec![])?)?;
    let calls = logger.recorded();
    assert_eq!(calls[0].2.len(), 1);
    assert_eq!(calls[0].2[0].name(), "correlation_id");
    assert_eq!(calls[0].2[0].value(), &LogAttributeValue::String("req-1".to_string()));
    Ok(())
}

fn ctx_with_all_ids(base: LogContext) -> LogContext {
    base.with_correlation_id(CorrelationId::new("c".to_string()))
        .unwrap()
        .with_trace_id(TraceId::new("t".to_string()))
        .unwrap()
        .with_span_id(SpanId::new("s".to_string()))
        .unwrap()
}

#[test]
fn fold_ctx_all_three_ids() -> Result<(), EmitError> {
    let logger = MockLogger::new("l");
    let ctx = ctx_with_all_ids(LogContext::new());
    logger.info("msg", &fold_context(&ctx, vec![])?)?;
    let calls = logger.recorded();
    assert_eq!(calls[0].2.len(), 3);
    assert_eq!(calls[0].2[0].name(), "correlation_id");
    assert_eq!(calls[0].2[1].name(), "trace_id");
    assert_eq!(calls[0].2[2].name(), "span_id");
    Ok(())
}

#[test]
fn fold_ctx_attrs_only() -> Result<(), EmitError> {
    let logger = MockLogger::new("l");
    let mut ctx = LogContext::new();
    ctx.add_attribute(attr("env", "prod")?).unwrap();
    ctx.add_attribute(attr("region", "us-east")?).unwrap();
    logger.info("msg", &fold_context(&ctx, vec![])?)?;
    let calls = logger.recorded();
    assert_eq!(calls[0].2.len(), 2);
    assert_eq!(calls[0].2[0].name(), "env");
    assert_eq!(calls[0].2[1].name(), "region");
    assert!(calls[0].2.iter().all(|a| a.name() != "correlation_id"));
    assert!(calls[0].2.iter().all(|a| a.name() != "trace_id"));
    assert!(calls[0].2.iter().all(|a| a.name() != "span_id"));
    Ok(())
}

#[test]
fn fold_ctx_full_plus_inline() -> Result<(), EmitError> {
    let logger = MockLogger::new("l");
    let mut ctx = LogContext::new();
    ctx.add_attribute(attr("env", "prod")?).unwrap();
    let ctx = ctx_with_all_ids(ctx);
    logger.info("msg", &fold_context(&ctx, vec![attr("region", "eu")?])?)?;
    let calls = logger.recorded();
    assert_eq!(calls[0].2.len(), 5);
    assert_eq!(calls[0].2[0].name(), "env");
    assert_eq!(calls[0].2[1].name(), "correlation_id");
    assert_eq!(calls[0].2[2].name(), "trace_id");
    assert_eq!(calls[0].2[3].name(), "span_id");
    assert_eq!(calls[0].2[4].name(), "region");
    Ok(())
}

#[test]
fn trace_bare_message() -> Result<(), EmitError> {
    let logger = MockLogger::new("l");
    logger.trace("msg", &[])?;
    let calls = logger.recorded();
    assert_eq!(calls[0].0, Severity::Trace);
    assert_eq!(calls[0].1, "msg");
    Ok(())
}

#[test]
fn trace_format_args() -> Result<(), EmitError> {
    let logger = MockLogger::new("l");
    let n = 3u32;
    logger.trace(&format!("retry {}", n), &[])?;
    assert_eq!(logger.recorded()[0].1, "retry 3");
    Ok(())
}

#[test]
fn trace_single_attr() -> Result<(), EmitError> {
    let logger = MockLogger::new("l");
    logger.trace("msg", &[attr("key", "val")?])?;
    let calls = logger.recorded();
    assert_eq!(calls[0].0, Severity::Trace);
    assert_eq!(calls[0].2[0].name(), "key");
    Ok(())
}

#[test]
fn trace_ctx_with_attr() -> Result<(), EmitError> {
    let logger = MockLogger::new("l");
    let ctx = LogContext::new().with_correlation_id(CorrelationId::new("c".to_string())).unwrap();
    logger.trace("msg", &fold_context(&ctx, vec![attr("env", "prod")?])?)?;
    let calls = logger.recorded();
    assert_eq!(calls[0].0, Severity::Trace);
    assert_eq!(calls[0].2.len(), 2);
    Ok(())
}

#[test]
fn debug_bare_message() -> Result<(), EmitError> {
    let logger = MockLogger::new("l");
    logger.debug("msg", &[])?;
    assert_eq!(logger.recorded()[0].0, Severity::Debug);
    Ok(())
}

#[test]
fn debug_format_args() -> Result<(), EmitError> {
    let logger = MockLogger::new("l");
    logger.debug(&format!("val={}", 42u32), &[])?;
    assert_eq!(logger.recorded()[0].1, "val=42");
    Ok(())
}

#[test]
fn debug_single_attr() -> Result<(), EmitError> {
    let logger = MockLogger::new("l");
    logger.debug("msg", &[attr("key", true)?])?;
    let calls = logger.recorded();
    assert_eq!(calls[0].2[0].value(), &LogAttributeValue::Boolean(true));
    Ok(())
}

#[test]
fn debug_ctx_with_attr() -> Result<(), EmitError> {
    let logger = MockLogger::new("l");
    let ctx = LogContext::new();
    logger.debug("msg", &fold_context(&ctx, vec![attr("flag", false)?])?)?;
    let calls = logger.recorded();
    assert_eq!(calls[0].0, Severity::Debug);
    assert_eq!(calls[0].2.len(), 1);
    Ok(())
}

#[test]
fn warn_bare_message() -> Result<(), EmitError> {
    let logger = MockLogger::new("l");
    logger.warn("msg", &[])?;
    assert_eq!(logger.recorded()[0].0, Severity::Warn);
    Ok(())
}

#[test]
fn warn_format_args() -> Result<(), EmitError> {
    let logger = MockLogger::new("l");
    logger.warn(&format!("attempt {}", 2u32), &[])?;
    assert_eq!(logger.recorded()[0].1, "attempt 2");
    Ok(())
}

#[test]
fn warn_single_attr() -> Result<(), EmitError> {
    let logger = MockLogger::new("l");
    logger.warn("msg", &[attr("count", 5i64)?])?;
    assert_eq!(logger.recorded()[0].2[0].value(), &LogAttributeValue::Integer(5));
    Ok(())
}

#[test]
fn warn_ctx_with_attr() -> Result<(), EmitError> {
    let logger = MockLogger::new("l");
    let ctx = LogContext::new().with_span_id(SpanId::new("s1".to_string())).unwrap();
    logger.warn("degraded", &fold_context(&ctx, vec![attr("region", "eu")?])?)?;
    let calls = logger.recorded();
    assert_eq!(calls[0].0, Severity::Warn);
    assert_eq!(calls[0].2.len(), 2);
    assert_eq!(calls[0].2[0].name(), "span_id");
    assert_eq!(calls[0].2[1].name(), "region");
    Ok(())
}

#[test]
fn error_bare_message() -> Result<(), EmitError> {
    let logger = MockLogger::new("l");
    logger.error("msg", &[])?;
    assert_eq!(logger.recorded()[0].0, Severity::Error);
    Ok(())
}

#[test]
fn error_format_args() -> Result<(), EmitError> {
    let logger = MockLogger::new("l");
    logger.error(&format!("code {}", 500u32), &[])?;
    assert_eq!(logger.recorded()[0].1, "code 500");
    Ok(())
}

#[test]
fn error_single_attr() -> Result<(), EmitError> {
    let logger = MockLogger::new("l");
    logger.error("crash", &[attr("latency", fv(0.42))?])?;
    assert_eq!(logger.recorded()[0].2[0].value(), &LogAttributeValue::Float(fv(0.42)));
    Ok(())
}

#[test]
fn error_ctx_with_attr() -> Result<(), EmitError> {
    let logger = MockLogger::new("l");
    let ctx = LogContext::new().with_trace_id(TraceId::new("t1".to_string())).unwrap();
    logger.error("fatal", &fold_context(&ctx, vec![attr("code", 500i64)?])?)?;
    let calls = logger.recorded();
    assert_eq!(calls[0].0, Severity::Error);
    assert_eq!(calls[0].2[0].name(), "trace_id");
    assert_eq!(calls[0].2[1].name(), "code");
    Ok(())
}

#[test]
fn returns_ok_on_success() -> Result<(), EmitError> {
    let logger = MockLogger::new("l");
    let result = logger.info("msg", &[]);
    assert_eq!(result, Ok(()));
    Ok(())
}

#[test]
fn propagates_logger_err() {
    let logger = MockLogger::with_error("l", EmitError::LoggerClosed);
    let result = logger.info("msg", &[]);
    assert_eq!(result, Err(EmitError::LoggerClosed));
}

#[test]
fn propagates_validation_err_empty_message() {
    let logger = MockLogger::new("l");
    let result = logger.info("", &[]);
    assert_eq!(result, Err(EmitError::Validation(ValidationError::EmptyMessage)));
}

#[test]
fn invalid_attribute_name_is_refused_before_the_call() {
    let logger = MockLogger::new("l");
    let r = attr("bad name", 1i64);
    assert!(matches!(r, Err(EmitError::Validation(ValidationError::InvalidAttributeName(_)))));
    assert!(logger.recorded().is_empty());
}

// ── Equivalence with direct calls, context fold order ───────────────────────

#[test]
fn macro_no_attrs_equiv_direct() -> Result<(), EmitError> {
    let l1 = MockLogger::new("l1");
    let l2 = MockLogger::new("l2");
    l1.info("hello", &fold_context(&LogContext::new(), vec![])?)?;
    l2.info("hello", &[])?;
    assert_eq!(l1.recorded(), l2.recorded());
    Ok(())
}

#[test]
fn macro_with_attrs_equiv_direct() -> Result<(), EmitError> {
    let l1 = MockLogger::new("l1");
    let l2 = MockLogger::new("l2");
    l1.info("hello", &[attr("k", "v")?])?;
    let hand_built = [LogAttribute::new("k".to_string(), LogAttributeValue::String("v".to_string())).unwrap()];
    l2.info("hello", &hand_built)?;
    assert_eq!(l1.recorded(), l2.recorded());
    Ok(())
}

#[test]
fn hygiene_no_domain_imports() -> Result<(), EmitError> {
    let logger = MockLogger::new("l");
    logger.info("msg", &[])?;
    assert_eq!(logger.recorded().len(), 1);
    Ok(())
}

#[test]
fn context_fold_all_ids_and_inline_attr() -> Result<(), EmitError> {
    let logger = MockLogger::new("l");
    let mut ctx = LogContext::new();
    ctx.add_attribute(attr("env", "prod")?).unwrap();
    let ctx = ctx_with_all_ids(ctx);
    logger.warn("degraded", &fold_context(&ctx, vec![attr("region", "eu")?])?)?;
    let calls = logger.recorded();
    assert_eq!(calls[0].0, Severity::Warn);
    let names: Vec<&str> = calls[0].2.iter().map(|a| a.name()).collect();
    assert_eq!(names, vec!["env", "correlation_id", "trace_id", "span_id", "region"]);
    Ok(())
}
