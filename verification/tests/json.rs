use centrifugo_change_stream::errors::TracedError;
use centrifugo_change_stream::json::{append_json_string, render_data};
use centrifugo_change_stream::model::{FieldValue, MongoDBData};
use centrifugo_change_stream::text::{i64_dec, str_eq, str_strip_prefix, u64_dec};
use centrifugo_change_stream::time::rfc3339_string;

#[test]
fn json_string_escapes() {
    let mut out = String::new();
    append_json_string(&mut out, "a\"b\\c\nd");
    assert_eq!(out, r#""a\"b\\c\nd""#);
}

#[test]
fn json_string_escapes_control_chars() {
    let mut out = String::new();
    append_json_string(&mut out, "\u{1}\t\r\u{c}\u{8}\u{1f}");
    assert_eq!(out, "\"\\u0001\\t\\r\\f\\b\\u001f\"");
}

#[test]
fn json_string_keeps_unicode() {
    let mut out = String::new();
    append_json_string(&mut out, "héllo ✓");
    assert_eq!(out, "\"héllo ✓\"");
}

#[test]
fn decimal_rendering() {
    assert_eq!(u64_dec(0), "0");
    assert_eq!(u64_dec(12345), "12345");
    assert_eq!(u64_dec(u64::MAX), "18446744073709551615");
    assert_eq!(i64_dec(-7), "-7");
    assert_eq!(i64_dec(i64::MIN), "-9223372036854775808");
    assert_eq!(i64_dec(i64::MAX), "9223372036854775807");
}

#[test]
fn string_helpers() {
    assert!(str_eq("abc", "abc"));
    assert!(!str_eq("abc", "abd"));
    assert!(!str_eq("abc", "ab"));
    assert_eq!(str_strip_prefix("val.count", "val."), Some("count".to_string()));
    assert_eq!(str_strip_prefix("value", "val."), None);
    assert_eq!(str_strip_prefix("va", "val."), None);
}

#[test]
fn rfc3339_known_values() {
    assert_eq!(rfc3339_string(0).unwrap(), "1970-01-01T00:00:00Z");
    assert_eq!(rfc3339_string(1673598600000).unwrap(), "2023-01-13T08:30:00Z");
    assert_eq!(rfc3339_string(45000).unwrap(), "1970-01-01T00:00:45Z");
}

#[test]
fn rfc3339_out_of_range() {
    assert!(rfc3339_string(i64::MAX).is_none());
}

#[test]
fn render_data_exact() {
    let mut data = MongoDBData::with_capacity(4);
    data.insert_value("a".to_string(), FieldValue::Int32(1));
    data.insert_value("b".to_string(), FieldValue::Str("x".to_string()));
    data.insert_value("c".to_string(), FieldValue::Bool(false));
    data.insert_value("d".to_string(), FieldValue::Null);
    data.insert_timestamp("t".to_string(), 0);
    let body = render_data(&data).unwrap();
    assert_eq!(
        body,
        r#"{"val":{"a":1,"b":"x","c":false,"d":null},"ts":{"t":"1970-01-01T00:00:00Z"}}"#
    );
}

#[test]
fn render_data_empty() {
    let data = MongoDBData::with_capacity(0);
    assert_eq!(render_data(&data).unwrap(), r#"{"val":{},"ts":{}}"#);
}

#[test]
fn render_data_unrenderable_timestamp() {
    let mut data = MongoDBData::with_capacity(1);
    data.insert_timestamp("t".to_string(), i64::MAX);
    assert!(render_data(&data).is_none());
}

#[test]
fn render_data_datetime_value() {
    let mut data = MongoDBData::with_capacity(1);
    data.insert_value("when".to_string(), FieldValue::DateTime(45000));
    let body = render_data(&data).unwrap();
    assert_eq!(body, r#"{"val":{"when":"1970-01-01T00:00:45Z"},"ts":{}}"#);
}

#[test]
fn traced_error_lines() {
    let kind = TracedError::from_kind("TCP listen", "address in use");
    assert_eq!(kind.trace_error(), "kind=TCP listen err=address in use");
    let broker = TracedError::from_centrifugo_error(42, "a message");
    assert_eq!(broker.trace_error(), "kind=from Centrifugo code=42 message=a message");
    let during = TracedError::from_during("starting change stream", "no server");
    assert_eq!(
        during.trace_error(),
        "during=starting change stream err=no server"
    );
}
