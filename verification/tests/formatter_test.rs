use kitlogger::attribute::{FloatValue, LogAttribute, LogAttributeValue, Timestamp};
use kitlogger::context::LogContext;
use kitlogger::formatter::human::HumanReadableFormatter;
use kitlogger::formatter::json::JsonFormatter;
use kitlogger::formatter::logfmt::LogfmtFormatter;
use kitlogger::formatter::render::{attr_value_to_human, logger_name, severity_label, value_debug_string};
use kitlogger::formatter::text::TextFormatter;
use kitlogger::formatter::time::{epoch_secs_to_datetime, rfc3339_utc};
use kitlogger::formatter::{formatter_from_config, format_record, LogFormat};
use kitlogger::record::LogRecord;
use kitlogger::severity::Severity;

const EPOCH_2026: u64 = 1_781_949_600; // 2026-06-20T10:00:00Z

fn fv(f: f64) -> FloatValue {
    FloatValue {
        bits: f.to_bits(),
        text: f.to_string(),
        debug_text: format!("{:?}", f),
        json_text: match serde_json::Number::from_f64(f) {
            Some(n) => n.to_string(),
            None => String::new(),
        },
    }
}

fn record_at(secs: u64, severity: Severity, message: &str, attrs: Vec<LogAttribute>) -> LogRecord {
    LogRecord::new(Timestamp::from_unix_secs(secs), severity, message.to_string(), attrs).unwrap()
}

fn make_record_with_attrs(severity: Severity, message: &str, attrs: Vec<LogAttribute>) -> LogRecord {
    record_at(EPOCH_2026, severity, message, attrs)
}

fn make_record(severity: Severity, message: &str) -> LogRecord {
    make_record_with_attrs(severity, message, vec![])
}

fn str_attr(name: &str, value: &str) -> LogAttribute {
    LogAttribute::new(name.to_string(), LogAttributeValue::String(value.to_string())).unwrap()
}

fn make_ctx_with_logger(name: &str) -> LogContext {
    let mut ctx = LogContext::new();
    ctx.add_attribute(str_attr("logger", name)).unwrap();
    ctx
}

fn env_ctx() -> LogContext {
    let mut ctx = LogContext::new();
    ctx.add_attribute(str_attr("env", "prod")).unwrap();
    ctx
}

// ---------------------------------------------------------------------------
// LogFormat, factory, helpers
// ---------------------------------------------------------------------------

#[test]
fn log_format_variants_are_distinct() {
    assert_ne!(LogFormat::Json, LogFormat::HumanReadable);
    assert_ne!(LogFormat::Json, LogFormat::Text);
    assert_ne!(LogFormat::Json, LogFormat::Logfmt);
    assert_ne!(LogFormat::HumanReadable, LogFormat::Text);
    assert_ne!(LogFormat::HumanReadable, LogFormat::Logfmt);
    assert_ne!(LogFormat::Text, LogFormat::Logfmt);
}

#[test]
fn formatter_from_config_json_does_not_panic() {
    let record = make_record(Severity::Info, "test");
    let formatter = formatter_from_config(LogFormat::Json);
    let _ = formatter.format(&record, None);
}

#[test]
fn formatter_from_config_human_readable_does_not_panic() {
    let record = make_record(Severity::Info, "test");
    let formatter = formatter_from_config(LogFormat::HumanReadable);
    let _ = formatter.format(&record, None);
}

#[test]
fn formatter_from_config_text_does_not_panic() {
    let record = make_record(Severity::Info, "test");
    let formatter = formatter_from_config(LogFormat::Text);
    let _ = formatter.format(&record, None);
}

#[test]
fn formatter_from_config_logfmt_does_not_panic() {
    let record = make_record(Severity::Info, "test");
    let formatter = formatter_from_config(LogFormat::Logfmt);
    let _ = formatter.format(&record, None);
}

#[test]
fn formatter_from_config_agrees_with_format_record() {
    let record = make_record_with_attrs(Severity::Error, "boom", vec![str_attr("service", "api")]);
    let ctx = make_ctx_with_logger("auth");
    for f in [LogFormat::Json, LogFormat::HumanReadable, LogFormat::Text, LogFormat::Logfmt] {
        let a = formatter_from_config(f).format(&record, Some(&ctx)).unwrap();
        let b = format_record(f, &record, Some(&ctx)).unwrap();
        assert_eq!(a, b);
    }
}

#[test]
fn severity_label_trace() {
    assert_eq!(severity_label(&Severity::Trace), "TRACE");
}

#[test]
fn severity_label_debug() {
    assert_eq!(severity_label(&Severity::Debug), "DEBUG");
}

#[test]
fn severity_label_info() {
    assert_eq!(severity_label(&Severity::Info), "INFO");
}

#[test]
fn severity_label_warn() {
    assert_eq!(severity_label(&Severity::Warn), "WARN");
}

#[test]
fn severity_label_error() {
    assert_eq!(severity_label(&Severity::Error), "ERROR");
}

#[test]
fn severity_label_fatal() {
    assert_eq!(severity_label(&Severity::Fatal), "FATAL");
}

#[test]
fn rfc3339_utc_unix_epoch() {
    assert_eq!(rfc3339_utc(Timestamp::unix_epoch()), "1970-01-01T00:00:00Z");
}

#[test]
fn rfc3339_utc_known_timestamp() {
    assert_eq!(rfc3339_utc(Timestamp::from_unix_secs(1_781_949_600)), "2026-06-20T10:00:00Z");
}

#[test]
fn rfc3339_utc_ignores_sub_second_part() {
    let t = Timestamp { secs: 1_735_689_600, nanos: 999_999_999 };
    assert_eq!(rfc3339_utc(t), "2025-01-01T00:00:00Z");
}

#[test]
fn epoch_secs_to_datetime_leap_day_and_end_of_year() {
    // 2024-02-29T12:34:56Z
    assert_eq!(epoch_secs_to_datetime(1_709_210_096), (2024, 2, 29, 12, 34, 56));
    // 1999-12-31T23:59:59Z
    assert_eq!(epoch_secs_to_datetime(946_684_799), (1999, 12, 31, 23, 59, 59));
    // 2000-03-01T00:00:00Z
    assert_eq!(epoch_secs_to_datetime(951_868_800), (2000, 3, 1, 0, 0, 0));
}

#[test]
fn logger_name_none_when_no_context() {
    assert!(logger_name(None).is_none());
}

#[test]
fn logger_name_found_in_context() {
    let ctx = make_ctx_with_logger("auth");
    assert_eq!(logger_name(Some(&ctx)), Some("auth"));
}

#[test]
fn logger_name_absent_when_key_missing() {
    let ctx = env_ctx();
    assert!(logger_name(Some(&ctx)).is_none());
}

#[test]
fn logger_name_skips_non_string_logger_value() {
    let mut ctx = LogContext::new();
    ctx.add_attribute(LogAttribute::new("logger".to_string(), LogAttributeValue::Integer(7)).unwrap()).unwrap();
    assert!(logger_name(Some(&ctx)).is_none());
}

// ---------------------------------------------------------------------------
// Text formatter
// ---------------------------------------------------------------------------

fn text_record(severity: Severity, message: &str) -> LogRecord {
    record_at(1_000_000, severity, message, vec![])
}

#[test]
fn text_with_logger() {
    let record = text_record(Severity::Info, "login ok");
    let ctx = make_ctx_with_logger("auth");
    let result = TextFormatter.format(&record, Some(&ctx)).unwrap();
    assert_eq!(result, "[INFO] auth: login ok");
}

#[test]
fn text_without_context() {
    let record = text_record(Severity::Warn, "slow query");
    let result = TextFormatter.format(&record, None).unwrap();
    assert_eq!(result, "[WARN] slow query");
}

#[test]
fn text_context_without_logger() {
    let ctx = env_ctx();
    let record = text_record(Severity::Info, "message");
    let result = TextFormatter.format(&record, Some(&ctx)).unwrap();
    assert_eq!(result, "[INFO] message");
}

#[test]
fn text_attrs_not_in_output() {
    let record = record_at(
        1_000_000,
        Severity::Info,
        "msg",
        vec![
            str_attr("service", "api"),
            LogAttribute::new("retries".to_string(), LogAttributeValue::Integer(3)).unwrap(),
        ],
    );
    let mut ctx = LogContext::new();
    ctx.add_attribute(str_attr("logger", "auth")).unwrap();
    ctx.add_attribute(str_attr("env", "prod")).unwrap();
    let result = TextFormatter.format(&record, Some(&ctx)).unwrap();
    assert_eq!(result, "[INFO] auth: msg");
    assert!(!result.contains("service"));
    assert!(!result.contains("retries"));
    assert!(!result.contains("env"));
}

#[test]
fn text_trace_severity() {
    let r = text_record(Severity::Trace, "t");
    assert_eq!(TextFormatter.format(&r, None).unwrap(), "[TRACE] t");
}

#[test]
fn text_debug_severity() {
    let r = text_record(Severity::Debug, "t");
    assert_eq!(TextFormatter.format(&r, None).unwrap(), "[DEBUG] t");
}

#[test]
fn text_info_severity() {
    let r = text_record(Severity::Info, "t");
    assert_eq!(TextFormatter.format(&r, None).unwrap(), "[INFO] t");
}

#[test]
fn text_warn_severity() {
    let r = text_record(Severity::Warn, "t");
    assert_eq!(TextFormatter.format(&r, None).unwrap(), "[WARN] t");
}

#[test]
fn text_error_severity() {
    let r = text_record(Severity::Error, "t");
    assert_eq!(TextFormatter.format(&r, None).unwrap(), "[ERROR] t");
}

#[test]
fn text_fatal_severity() {
    let r = text_record(Severity::Fatal, "t");
    assert_eq!(TextFormatter.format(&r, None).unwrap(), "[FATAL] t");
}

// ---------------------------------------------------------------------------
// Human-readable formatter
// ---------------------------------------------------------------------------

#[test]
fn human_full_record_with_logger() {
    let record = make_record_with_attrs(Severity::Info, "login ok", vec![str_attr("service", "api")]);
    let ctx = make_ctx_with_logger("auth");
    let result = HumanReadableFormatter.format(&record, Some(&ctx)).unwrap();
    assert_eq!(result, "2026-06-20T10:00:00Z  INFO [auth] login ok  service=api");
}

#[test]
fn human_record_without_context_no_bracket() {
    let record = make_record(Severity::Warn, "slow query");
    let result = HumanReadableFormatter.format(&record, None).unwrap();
    assert!(result.contains("WARN"));
    assert!(result.contains("slow query"));
    assert!(!result.contains('['));
}

#[test]
fn human_context_without_logger_no_bracket() {
    let ctx = env_ctx();
    let record = make_record(Severity::Info, "msg");
    let result = HumanReadableFormatter.format(&record, Some(&ctx)).unwrap();
    assert!(!result.contains('['));
    assert!(result.contains("env=prod"));
}

#[test]
fn human_no_attrs_no_trailing_content() {
    let record = make_record(Severity::Info, "hello");
    let result = HumanReadableFormatter.format(&record, None).unwrap();
    assert!(result.ends_with("hello"));
    assert_eq!(result, "2026-06-20T10:00:00Z  INFO hello");
}

#[test]
fn human_array_attr_renders_inline_json() {
    let arr = LogAttributeValue::array(vec![
        LogAttributeValue::String("api".to_string()),
        LogAttributeValue::String("auth".to_string()),
    ])
    .unwrap();
    let record = make_record_with_attrs(Severity::Info, "msg", vec![LogAttribute::new("tags".to_string(), arr).unwrap()]);
    let result = HumanReadableFormatter.format(&record, None).unwrap();
    assert!(result.contains(r#"tags=["api","auth"]"#));
}

#[test]
fn human_nan_float_renders_as_string() {
    let record = make_record_with_attrs(
        Severity::Info,
        "msg",
        vec![LogAttribute::new("val".to_string(), LogAttributeValue::Float(fv(f64::NAN))).unwrap()],
    );
    let result = HumanReadableFormatter.format(&record, None).unwrap();
    assert!(result.contains("val=NaN"));
}

#[test]
fn human_inf_float_renders_as_string() {
    let record = make_record_with_attrs(
        Severity::Info,
        "msg",
        vec![LogAttribute::new("val".to_string(), LogAttributeValue::Float(fv(f64::INFINITY))).unwrap()],
    );
    let result = HumanReadableFormatter.format(&record, None).unwrap();
    assert!(result.contains("val=Inf"));
}

#[test]
fn human_finite_float_and_timestamp_values() {
    let record = make_record_with_attrs(
        Severity::Debug,
        "m",
        vec![
            LogAttribute::new("ratio".to_string(), LogAttributeValue::Float(fv(0.5))).unwrap(),
            LogAttribute::new("at".to_string(), LogAttributeValue::Timestamp(Timestamp::from_unix_secs(1_735_689_600))).unwrap(),
            LogAttribute::new("ok".to_string(), LogAttributeValue::Boolean(true)).unwrap(),
        ],
    );
    let result = HumanReadableFormatter.format(&record, None).unwrap();
    assert_eq!(result, "2026-06-20T10:00:00Z  DEBUG m  ratio=0.5 at=2025-01-01T00:00:00Z ok=true");
}

// ---------------------------------------------------------------------------
// JSON formatter
// ---------------------------------------------------------------------------

#[test]
fn json_full_record_with_logger() {
    let record = make_record_with_attrs(Severity::Info, "login ok", vec![str_attr("service", "api")]);
    let ctx = make_ctx_with_logger("auth");
    let result = JsonFormatter.format(&record, Some(&ctx)).unwrap();
    assert_eq!(
        result,
        r#"{"ts":"2026-06-20T10:00:00Z","level":"INFO","msg":"login ok","logger":"auth","service":"api"}"#
    );
}

#[test]
fn json_record_without_context_no_logger_key() {
    let record = make_record(Severity::Warn, "slow query");
    let result = JsonFormatter.format(&record, None).unwrap();
    assert!(result.contains(r#""level":"WARN""#));
    assert!(result.contains(r#""msg":"slow query""#));
    assert!(!result.contains(r#""logger""#));
}

#[test]
fn json_context_without_logger_key_absent() {
    let ctx = env_ctx();
    let record = make_record(Severity::Info, "msg");
    let result = JsonFormatter.format(&record, Some(&ctx)).unwrap();
    assert!(!result.contains(r#""logger""#));
    assert!(result.contains(r#""env":"prod""#));
}

#[test]
fn json_boolean_and_integer_native_types() {
    let record = make_record_with_attrs(
        Severity::Info,
        "msg",
        vec![
            LogAttribute::new("retries".to_string(), LogAttributeValue::Integer(3)).unwrap(),
            LogAttribute::new("cached".to_string(), LogAttributeValue::Boolean(false)).unwrap(),
        ],
    );
    let result = JsonFormatter.format(&record, None).unwrap();
    assert!(result.contains(r#""retries":3"#));
    assert!(result.contains(r#""cached":false"#));
}

#[test]
fn json_timestamp_attr_renders_as_rfc3339() {
    let ts = Timestamp::from_unix_secs(1_735_689_600);
    let record = make_record_with_attrs(
        Severity::Info,
        "msg",
        vec![LogAttribute::new("started".to_string(), LogAttributeValue::Timestamp(ts)).unwrap()],
    );
    let result = JsonFormatter.format(&record, None).unwrap();
    assert!(result.contains(r#""started":"2025-01-01T00:00:00Z""#));
}

#[test]
fn json_array_attr_produces_json_array() {
    let arr = LogAttributeValue::array(vec![
        LogAttributeValue::String("api".to_string()),
        LogAttributeValue::String("auth".to_string()),
    ])
    .unwrap();
    let record = make_record_with_attrs(Severity::Info, "msg", vec![LogAttribute::new("tags".to_string(), arr).unwrap()]);
    let result = JsonFormatter.format(&record, None).unwrap();
    assert!(result.contains(r#""tags":["api","auth"]"#));
}

#[test]
fn json_nan_float_returns_error() {
    let record = make_record_with_attrs(
        Severity::Info,
        "msg",
        vec![LogAttribute::new("val".to_string(), LogAttributeValue::Float(fv(f64::NAN))).unwrap()],
    );
    assert!(JsonFormatter.format(&record, None).is_err());
}

#[test]
fn json_inf_float_returns_error() {
    let record = make_record_with_attrs(
        Severity::Info,
        "msg",
        vec![LogAttribute::new("val".to_string(), LogAttributeValue::Float(fv(f64::INFINITY))).unwrap()],
    );
    assert!(JsonFormatter.format(&record, None).is_err());
}

#[test]
fn json_fatal_severity_renders_as_fatal() {
    let record = make_record(Severity::Fatal, "crash");
    let result = JsonFormatter.format(&record, None).unwrap();
    assert!(result.contains(r#""level":"FATAL""#));
}

#[test]
fn json_escapes_quotes_and_newlines_in_message() {
    let record = make_record(Severity::Info, "say \"hi\"\nbye");
    let result = JsonFormatter.format(&record, None).unwrap();
    assert!(result.contains(r#""msg":"say \"hi\"\nbye""#));
}

#[test]
fn json_duplicate_keys_are_written_in_order() {
    let record = make_record_with_attrs(Severity::Info, "m", vec![str_attr("env", "dev")]);
    let ctx = env_ctx();
    let result = JsonFormatter.format(&record, Some(&ctx)).unwrap();
    assert_eq!(result, r#"{"ts":"2026-06-20T10:00:00Z","level":"INFO","msg":"m","env":"dev","env":"prod"}"#);
}

// ---------------------------------------------------------------------------
// Logfmt formatter
// ---------------------------------------------------------------------------

#[test]
fn logfmt_full_record_with_logger() {
    let record = make_record_with_attrs(Severity::Info, "login ok", vec![str_attr("service", "api")]);
    let ctx = make_ctx_with_logger("auth");
    let result = LogfmtFormatter.format(&record, Some(&ctx)).unwrap();
    assert_eq!(result, r#"ts=2026-06-20T10:00:00Z level=INFO msg="login ok" logger=auth service=api"#);
}

#[test]
fn logfmt_message_with_spaces_is_quoted() {
    let record = make_record(Severity::Info, "user logged in");
    let result = LogfmtFormatter.format(&record, None).unwrap();
    assert!(result.contains(r#"msg="user logged in""#));
}

#[test]
fn logfmt_record_without_context() {
    let record = make_record(Severity::Warn, "retry");
    let result = LogfmtFormatter.format(&record, None).unwrap();
    assert!(result.starts_with("ts="));
    assert!(result.contains("level=WARN"));
    assert!(result.contains("msg=retry"));
    assert!(!result.contains("logger="));
}

#[test]
fn logfmt_value_with_equals_is_quoted() {
    let record = make_record_with_attrs(Severity::Info, "msg", vec![str_attr("kv", "k=v")]);
    let result = LogfmtFormatter.format(&record, None).unwrap();
    assert!(result.contains(r#"kv="k=v""#));
}

#[test]
fn logfmt_value_with_embedded_quote_is_escaped() {
    let record = make_record_with_attrs(Severity::Info, "msg", vec![str_attr("greeting", r#"say "hello""#)]);
    let result = LogfmtFormatter.format(&record, None).unwrap();
    assert!(result.contains(r#"greeting="say \"hello\"""#));
}

#[test]
fn logfmt_simple_value_is_bare() {
    let record = make_record_with_attrs(Severity::Info, "msg", vec![str_attr("env", "prod")]);
    let result = LogfmtFormatter.format(&record, None).unwrap();
    assert!(result.contains("env=prod"));
    assert!(!result.contains("env=\"prod\""));
}

#[test]
fn logfmt_string_array_renders_as_inline_json() {
    let arr = LogAttributeValue::array(vec![
        LogAttributeValue::String("api".to_string()),
        LogAttributeValue::String("auth".to_string()),
    ])
    .unwrap();
    let record = make_record_with_attrs(Severity::Info, "msg", vec![LogAttribute::new("tags".to_string(), arr).unwrap()]);
    let result = LogfmtFormatter.format(&record, None).unwrap();
    assert!(result.contains(r#"tags=["api","auth"]"#));
}

#[test]
fn logfmt_integer_array_renders_as_inline_json() {
    let arr = LogAttributeValue::array(vec![
        LogAttributeValue::Integer(200),
        LogAttributeValue::Integer(201),
        LogAttributeValue::Integer(204),
    ])
    .unwrap();
    let record = make_record_with_attrs(Severity::Info, "msg", vec![LogAttribute::new("codes".to_string(), arr).unwrap()]);
    let result = LogfmtFormatter.format(&record, None).unwrap();
    assert!(result.contains("codes=[200,201,204]"));
}

#[test]
fn logfmt_timestamp_attr_renders_as_rfc3339() {
    let ts = Timestamp::from_unix_secs(1_735_689_600);
    let record = make_record_with_attrs(
        Severity::Info,
        "msg",
        vec![LogAttribute::new("started".to_string(), LogAttributeValue::Timestamp(ts)).unwrap()],
    );
    let result = LogfmtFormatter.format(&record, None).unwrap();
    assert!(result.contains("started=2025-01-01T00:00:00Z"));
}

#[test]
fn logfmt_all_attrs_present() {
    let record = make_record_with_attrs(
        Severity::Info,
        "msg",
        vec![
            LogAttribute::new("a".to_string(), LogAttributeValue::Integer(1)).unwrap(),
            LogAttribute::new("b".to_string(), LogAttributeValue::Integer(2)).unwrap(),
        ],
    );
    let mut ctx = LogContext::new();
    ctx.add_attribute(str_attr("logger", "svc")).unwrap();
    ctx.add_attribute(str_attr("env", "prod")).unwrap();
    ctx.add_attribute(str_attr("region", "us-east-1")).unwrap();
    let result = LogfmtFormatter.format(&record, Some(&ctx)).unwrap();
    assert!(result.contains("a=1"));
    assert!(result.contains("b=2"));
    assert!(result.contains("env=prod"));
    assert!(result.contains("region=us-east-1"));
    assert!(result.contains("logger=svc"));
}

#[test]
fn logfmt_nan_renders_as_string() {
    let record = make_record_with_attrs(
        Severity::Info,
        "msg",
        vec![LogAttribute::new("val".to_string(), LogAttributeValue::Float(fv(f64::NAN))).unwrap()],
    );
    let result = LogfmtFormatter.format(&record, None).unwrap();
    assert!(result.contains("val=NaN"));
}

#[test]
fn logfmt_inf_renders_as_string() {
    let record = make_record_with_attrs(
        Severity::Info,
        "msg",
        vec![LogAttribute::new("val".to_string(), LogAttributeValue::Float(fv(f64::INFINITY))).unwrap()],
    );
    let result = LogfmtFormatter.format(&record, None).unwrap();
    assert!(result.contains("val=Inf"));
}

#[test]
fn logfmt_array_with_nan_float_uses_string_item() {
    let arr = LogAttributeValue::array(vec![
        LogAttributeValue::Float(fv(f64::NAN)),
        LogAttributeValue::Float(fv(1.5)),
    ])
    .unwrap();
    let record = make_record_with_attrs(Severity::Info, "msg", vec![LogAttribute::new("xs".to_string(), arr).unwrap()]);
    let result = LogfmtFormatter.format(&record, None).unwrap();
    assert!(result.contains(r#"xs=["NaN",1.5]"#));
}

#[test]
fn human_nested_array_item_renders_as_its_debug_text() {
    let inner = LogAttributeValue::array(vec![LogAttributeValue::String("a\"b".to_string())]).unwrap();
    let outer = LogAttributeValue::array(vec![inner.clone()]).unwrap();
    let debug = format!("{:?}", inner);
    assert_eq!(value_debug_string(&inner), debug);
    assert_eq!(attr_value_to_human(&outer), format!("[{}]", serde_json::to_string(&debug).unwrap()));
}

#[test]
fn json_refuses_a_non_finite_float_nested_in_an_array_and_keeps_finite_ones() {
    let bad = LogAttributeValue::array(vec![
        LogAttributeValue::Float(fv(1.5)),
        LogAttributeValue::Float(fv(f64::NEG_INFINITY)),
    ])
    .unwrap();
    let record = make_record_with_attrs(Severity::Info, "msg", vec![LogAttribute::new("xs".to_string(), bad).unwrap()]);
    assert!(JsonFormatter.format(&record, None).is_err());

    let good = LogAttributeValue::array(vec![
        LogAttributeValue::Float(fv(1.5)),
        LogAttributeValue::Float(fv(-2.25)),
    ])
    .unwrap();
    let record = make_record_with_attrs(Severity::Info, "msg", vec![LogAttribute::new("xs".to_string(), good).unwrap()]);
    let line = JsonFormatter.format(&record, None).unwrap();
    assert!(line.contains(r#""xs":[1.5,-2.25]"#), "{line}");
}

#[test]
fn json_escapes_control_characters_backslash_and_keeps_other_text() {
    let record = make_record(Severity::Info, "a\u{1}\u{8}\u{c}\r\t\\/é\u{7f}");
    let result = JsonFormatter.format(&record, None).unwrap();
    assert!(result.contains("\"msg\":\"a\\u0001\\b\\f\\r\\t\\\\/é\u{7f}\""), "{result}");
}
