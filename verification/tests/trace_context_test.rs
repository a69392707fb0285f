use kitlogger::propagation::carrier::MapCarrier;
use kitlogger::propagation::propagator::TraceContextPropagator;
use kitlogger::propagation::trace_context::{SpanId, TraceContext, TraceFlags, TraceId, TraceState};

#[test]
fn test_trace_context_creation() {
    let trace_id = TraceId::from_str("0af7651916cd43dd8448eb211c80319c").unwrap();
    let span_id = SpanId::from_str("b7ad6b7169203331").unwrap();
    let trace_flags = TraceFlags::new(0x01);
    let trace_state = TraceState::new();

    let trace_context = TraceContext::new(trace_id, span_id, None, trace_flags, trace_state);

    assert_eq!(trace_context.trace_id, trace_id);
    assert_eq!(trace_context.span_id, span_id);
    assert_eq!(trace_context.trace_flags, trace_flags);
}

#[test]
fn test_trace_context_from_str() {
    let traceparent = "00-0af7651916cd43dd8448eb211c80319c-b7ad6b7169203331-01";
    let context = TraceContext::from_str(traceparent).unwrap();

    assert_eq!(context.trace_id.to_text(), "0af7651916cd43dd8448eb211c80319c");
    assert_eq!(context.span_id.to_text(), "b7ad6b7169203331");
    assert_eq!(context.trace_flags.as_u8(), 0x01);
}

#[test]
fn test_trace_context_from_str_invalid() {
    let traceparent = "00-0af7651916cd43dd8448eb211c80319c-b7ad6b7169203331-01-";
    let result = TraceContext::from_str(traceparent);
    assert!(result.is_err());
}

#[test]
fn test_trace_context_from_str_invalid_version() {
    let traceparent = "ff-0af7651916cd43dd8448eb211c80319c-b7ad6b7169203331-01";
    let result = TraceContext::from_str(traceparent);
    assert!(result.is_err());
}

#[test]
fn test_trace_context_from_str_invalid_trace_id() {
    let traceparent = "00-00000000000000000000000000000000-b7ad6b7169203331-01";
    let context = TraceContext::from_str(traceparent).unwrap();
    assert_eq!(context.trace_id.to_text(), "00000000000000000000000000000000");
}

#[test]
fn test_trace_context_from_str_invalid_span_id() {
    let traceparent = "00-0af7651916cd43dd8448eb211c80319c-0000000000000000-01";
    let context = TraceContext::from_str(traceparent).unwrap();
    assert_eq!(context.span_id.to_text(), "0000000000000000");
}

#[test]
fn test_trace_context_roundtrip() {
    let trace_id = TraceId::from_str("0af7651916cd43dd8448eb211c80319c").unwrap();
    let span_id = SpanId::from_str("b7ad6b7169203331").unwrap();
    let trace_flags = TraceFlags::new(0x01);
    let trace_context = TraceContext::new(trace_id, span_id, None, trace_flags, TraceState::new());

    let mut carrier = MapCarrier::new();
    let propagator = TraceContextPropagator::new();
    propagator.inject(&mut carrier, &trace_context);

    let extracted = propagator.extract(&carrier);
    assert!(extracted.is_some());
    let extracted_context = extracted.unwrap();

    assert_eq!(trace_context.trace_id, extracted_context.trace_id);
    assert_eq!(trace_context.span_id, extracted_context.span_id);
    assert_eq!(trace_context.trace_flags, extracted_context.trace_flags);
    assert_eq!(trace_context.parent_span_id, extracted_context.parent_span_id);
}

#[test]
fn test_trace_context_display_format() {
    let trace_id = TraceId::from_str("0af7651916cd43dd8448eb211c80319c").unwrap();
    let span_id = SpanId::from_str("b7ad6b7169203331").unwrap();
    let trace_flags = TraceFlags::new(0x01);

    let context = TraceContext::new(trace_id, span_id, None, trace_flags, TraceState::new());

    let display_string = context.to_text();
    assert_eq!(display_string, "00-0af7651916cd43dd8448eb211c80319c-b7ad6b7169203331-01");
}

#[test]
fn test_trace_context_invalid_version() {
    let traceparent = "ff-0af7651916cd43dd8448eb211c80319c-b7ad6b7169203331-01";
    let result = TraceContext::from_str(traceparent);
    assert!(result.is_err());
}

#[test]
fn test_multi_hop_propagation() {
    let trace_id = TraceId::from_str("0af7651916cd43dd8448eb211c80319c").unwrap();
    let span_id = SpanId::from_str("b7ad6b7169203331").unwrap();
    let original = TraceContext::new(trace_id, span_id, None, TraceFlags::new(0x01), TraceState::new());
    let propagator = TraceContextPropagator::new();

    let mut context = original.clone();
    for hop in 1..=5 {
        let mut carrier = MapCarrier::new();
        propagator.inject(&mut carrier, &context);
        let extracted = propagator.extract(&carrier);
        assert!(extracted.is_some(), "extraction failed at hop {}", hop);
        context = extracted.unwrap();

        assert_eq!(context.trace_id, original.trace_id, "trace_id mismatch at hop {}", hop);
        assert_eq!(context.trace_flags, original.trace_flags, "trace_flags mismatch at hop {}", hop);
    }
}

#[test]
fn test_malformed_context_handling() {
    let propagator = TraceContextPropagator::new();

    let carrier = MapCarrier::new();
    assert!(propagator.extract(&carrier).is_none());

    let mut carrier = MapCarrier::new();
    carrier.set("traceparent", "not-a-traceparent");
    assert!(propagator.extract(&carrier).is_none());

    let mut carrier = MapCarrier::new();
    carrier.set("traceparent", "00-abc-def-01-extra");
    assert!(propagator.extract(&carrier).is_none());

    let mut carrier = MapCarrier::new();
    carrier.set("traceparent", "ff-0af7651916cd43dd8448eb211c80319c-b7ad6b7169203331-01");
    assert!(propagator.extract(&carrier).is_none());

    let mut carrier = MapCarrier::new();
    carrier.set("traceparent", "00-00000000000000000000000000000000-b7ad6b7169203331-01");
    assert!(propagator.extract(&carrier).is_none());

    let mut carrier = MapCarrier::new();
    carrier.set("traceparent", "00-0af7651916cd43dd8448eb211c80319c-0000000000000000-01");
    assert!(propagator.extract(&carrier).is_none());
}

#[test]
fn test_trace_context_zero_trace_id() {
    let trace_id = TraceId::from_str("00000000000000000000000000000000").unwrap();
    let span_id = SpanId::from_str("b7ad6b7169203331").unwrap();
    let trace_flags = TraceFlags::new(0x01);

    let context = TraceContext::new(trace_id, span_id, None, trace_flags, TraceState::new());

    assert!(!context.is_valid());
}

#[test]
fn test_tracestate_max_entries() {
    let mut state = TraceState::new();
    for i in 0..32 {
        assert!(state.add(&format!("key{}", i), &format!("value{}", i)).is_ok());
    }
    let result = state.add("overflow", "value");
    assert!(result.is_err());
    assert_eq!(result.unwrap_err(), "Maximum number of trace state entries exceeded");
}

#[test]
fn trace_id_errors_name_length_and_bad_pair() {
    assert_eq!(TraceId::from_str("abc").unwrap_err(), "TraceId must be 32 characters");
    assert_eq!(
        TraceId::from_str("0af7651916cd43dd8448eb211c80319g").unwrap_err(),
        "Invalid hex character in TraceId: 9g"
    );
    assert_eq!(SpanId::from_str("b7ad6b716920333").unwrap_err(), "SpanId must be 16 characters");
    assert_eq!(SpanId::from_str("zzad6b7169203331").unwrap_err(), "Invalid hex character in SpanId: zz");
}

#[test]
fn trace_id_accepts_upper_case_and_renders_lower_case() {
    let id = TraceId::from_str("0AF7651916CD43DD8448EB211C80319C").unwrap();
    assert_eq!(id.to_text(), "0af7651916cd43dd8448eb211c80319c");
    assert!(!id.is_zero());
    assert_eq!(id.as_bytes()[0], 0x0a);
}

#[test]
fn traceparent_errors_name_the_failing_part() {
    assert_eq!(TraceContext::from_str("00-01").unwrap_err(), "Invalid traceparent format");
    assert_eq!(
        TraceContext::from_str("zz-0af7651916cd43dd8448eb211c80319c-b7ad6b7169203331-01").unwrap_err(),
        "Invalid version in traceparent"
    );
    assert_eq!(
        TraceContext::from_str("00-0af7-b7ad6b7169203331-01").unwrap_err(),
        "Invalid trace_id in traceparent: TraceId must be 32 characters"
    );
    assert_eq!(
        TraceContext::from_str("00-0af7651916cd43dd8448eb211c80319c-b7ad-01").unwrap_err(),
        "Invalid span_id in traceparent: SpanId must be 16 characters"
    );
    assert_eq!(
        TraceContext::from_str("00-0af7651916cd43dd8448eb211c80319c-b7ad6b7169203331-xy").unwrap_err(),
        "Invalid trace_flags in traceparent"
    );
}

#[test]
fn trace_flags_sampled_bit() {
    let mut f = TraceFlags::new(0x02);
    assert!(!f.is_sampled());
    f.set_sampled(true);
    assert_eq!(f.as_u8(), 0x03);
    assert!(f.is_sampled());
    f.set_sampled(false);
    assert_eq!(f.as_u8(), 0x02);
    assert_eq!(TraceFlags::new(0xab).to_text(), "ab");
    assert_eq!(TraceFlags::from_str("+1").unwrap().as_u8(), 1);
    assert_eq!(TraceFlags::from_str("100").unwrap_err(), "Invalid hex string for TraceFlags");
}

#[test]
fn trace_state_refuses_bad_keys_and_values() {
    let mut state = TraceState::new();
    assert_eq!(state.add("", "v").unwrap_err(), "Invalid key length");
    assert_eq!(state.add(&"k".repeat(257), "v").unwrap_err(), "Invalid key length");
    assert_eq!(state.add("k", &"v".repeat(257)).unwrap_err(), "Invalid value length");
    assert!(state.add("k", "v").is_ok());
    assert_eq!(state.entries().len(), 1);
    assert_eq!(state.entries()[0], ("k".to_string(), "v".to_string()));
}

#[test]
fn text_roundtrip_keeps_context_fields() {
    let text = "07-0af7651916cd43dd8448eb211c80319c-b7ad6b7169203331-9a";
    let c = TraceContext::from_str(text).unwrap();
    assert_eq!(c.version, 7);
    assert_eq!(c.to_text(), text);
    let back = TraceContext::from_str(&c.to_text()).unwrap();
    assert_eq!(back, c);
}

#[test]
fn non_ascii_traceparent_is_not_extracted() {
    let propagator = TraceContextPropagator::new();
    let mut carrier = MapCarrier::new();
    carrier.set("traceparent", "00-0af7651916cd43dd8448eb211c8031é-b7ad6b7169203331-01");
    assert!(propagator.extract(&carrier).is_none());
}

#[test]
fn carrier_set_replaces_and_get_reads() {
    let mut carrier = MapCarrier::new();
    assert_eq!(carrier.get("a"), None);
    carrier.set("a", "1");
    carrier.set("b", "2");
    carrier.set("a", "3");
    assert_eq!(carrier.get("a"), Some("3".to_string()));
    assert_eq!(carrier.get("b"), Some("2".to_string()));
    assert_eq!(carrier.get("c"), None);
}
