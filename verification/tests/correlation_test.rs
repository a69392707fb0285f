use kitlogger::propagation::correlation::{extract_timestamp_from_uuid, CorrelationIdentifier};
use kitlogger::propagation::trace_context::TraceId;

const V7: &str = "017f22e2-79b0-7cc3-98c4-dc0c0c07398f";

#[test]
fn correlation_from_str_reads_the_v7_timestamp() {
    let c = CorrelationIdentifier::from_str(V7).unwrap();
    assert_eq!(c.created_at(), 1_645_557_742_000);
    assert!(c.is_valid());
    assert_eq!(c.to_text(), V7);
    assert_eq!(*c.id(), *uuid::Uuid::parse_str(V7).unwrap().as_bytes());
}

#[test]
fn correlation_from_str_accepts_upper_case_and_prints_lower_case() {
    let c = CorrelationIdentifier::from_str(&V7.to_uppercase()).unwrap();
    assert_eq!(c.to_text(), V7);
}

#[test]
fn correlation_from_str_refuses_the_nil_uuid() {
    let r = CorrelationIdentifier::from_str("00000000-0000-0000-0000-000000000000");
    assert_eq!(r, Err("Correlation identifier UUID must not be nil".to_string()));
}

#[test]
fn correlation_from_str_refuses_text_that_is_not_a_uuid() {
    let r = CorrelationIdentifier::from_str("not-a-uuid");
    let expected = format!("Invalid UUID format: {}", uuid::Uuid::parse_str("not-a-uuid").unwrap_err());
    assert_eq!(r, Err(expected));
}

#[test]
fn correlation_from_uuid_nil_is_none() {
    assert!(CorrelationIdentifier::from_uuid([0u8; 16]).is_none());
}

#[test]
fn timestamp_of_a_uuid_without_one_reads_its_first_six_bytes() {
    // A version 4 UUID carries no timestamp.
    let bytes = *uuid::Uuid::parse_str("0102030405064b7c8d9e0f1011121314").unwrap().as_bytes();
    assert_eq!(extract_timestamp_from_uuid(&bytes), 0x0102_0304_0506);
    let c = CorrelationIdentifier::from_uuid(bytes).unwrap();
    assert_eq!(c.created_at, 0x0102_0304_0506);
}

#[test]
fn trace_id_from_uuid_keeps_its_bytes() {
    let u = uuid::Uuid::parse_str(V7).unwrap();
    let id = TraceId::from_uuid(*u.as_bytes());
    assert_eq!(id.as_bytes(), u.as_bytes());
    assert_eq!(id.to_text(), "017f22e279b07cc398c4dc0c0c07398f");
}

#[test]
fn correlation_new_is_a_valid_v7_identifier() {
    let c = CorrelationIdentifier::new();
    assert!(c.is_valid());
    assert_eq!(c.id()[6] >> 4, 7);
    let reparsed = CorrelationIdentifier::from_str(&c.to_text()).unwrap();
    assert_eq!(reparsed, c);
}
