use centrifugo_change_stream::centrifugo::publish_outcome;
use centrifugo_change_stream::channel::RoundtripError;
use centrifugo_change_stream::http_api::{
    health_response, subscribe_decision, subscribe_response, subscribe_response_of_roundtrip,
    CentrifugoProxyError, SubscribeRequest, SubscribeStep,
};
use centrifugo_change_stream::model::{FieldValue, MongoDBData};

fn request(protocol: &str, encoding: &str, channel: &str) -> SubscribeRequest {
    SubscribeRequest {
        protocol: protocol.to_string(),
        encoding: encoding.to_string(),
        channel: channel.to_string(),
    }
}

#[test]
fn http_api_roundtrip_error() {
    assert_eq!(health_response(&Err(RoundtripError::SendFailed)), 500);
    assert_eq!(health_response(&Err(RoundtripError::ReplyFailed)), 500);
}

#[test]
fn health_error() {
    assert_eq!(health_response(&Ok(false)), 500);
}

#[test]
fn http_api_success() {
    assert_eq!(health_response(&Ok(true)), 204);
}

#[test]
fn health_probe_failure_is_500() {
    let probe = publish_outcome(500, None);
    let healthy = centrifugo_change_stream::centrifugo::health_reply(&probe);
    assert_eq!(health_response(&Ok(healthy)), 500);
}

#[test]
fn health_idempotent() {
    let first = health_response(&Ok(true));
    let second = health_response(&Ok(true));
    assert_eq!(first, 204);
    assert_eq!(second, 204);
}

#[test]
fn unsupported_protocol() {
    let req = request("unsupported", "json", "ns:chan");
    let step = subscribe_decision(&req, "ns:");
    let error = match step {
        SubscribeStep::Reject(e) => e,
        SubscribeStep::Lookup(_) => panic!("expected a rejection"),
    };
    assert_eq!(error, CentrifugoProxyError::UnsupportedProtocol);
    assert_eq!(
        error.to_json_body(),
        r#"{"error":{"code":1000,"message":"unsupported protocol"}}"#
    );
}

#[test]
fn xml_protocol_rejected() {
    let req = request("xml", "json", "ns:chan");
    let step = subscribe_decision(&req, "ns:");
    let error = match step {
        SubscribeStep::Reject(e) => e,
        SubscribeStep::Lookup(_) => panic!("expected a rejection"),
    };
    assert_eq!(
        error.to_json_body(),
        r#"{"error":{"code":1000,"message":"unsupported protocol"}}"#
    );
}

#[test]
fn unsupported_encoding() {
    let req = request("json", "unsupported", "ns:chan");
    let step = subscribe_decision(&req, "ns:");
    let error = match step {
        SubscribeStep::Reject(e) => e,
        SubscribeStep::Lookup(_) => panic!("expected a rejection"),
    };
    assert_eq!(error, CentrifugoProxyError::UnsupportedEncoding);
    assert_eq!(
        error.to_json_body(),
        r#"{"error":{"code":1001,"message":"unsupported encoding"}}"#
    );
}

#[test]
fn bad_channel_namespace() {
    let req = request("json", "json", "chan");
    let step = subscribe_decision(&req, "ns:");
    let error = match step {
        SubscribeStep::Reject(e) => e,
        SubscribeStep::Lookup(_) => panic!("expected a rejection"),
    };
    assert_eq!(error, CentrifugoProxyError::BadChannelNamespace);
    assert_eq!(
        error.to_json_body(),
        r#"{"error":{"code":1002,"message":"bad channel namespace"}}"#
    );
}

#[test]
fn strips_channel_to_document_id() {
    let req = request("json", "json", "db.coll:doc1");
    let step = subscribe_decision(&req, "db.coll:");
    match step {
        SubscribeStep::Lookup(id) => assert_eq!(id, "doc1"),
        SubscribeStep::Reject(_) => panic!("expected a lookup"),
    }
}

#[test]
fn subscribe_roundtrip_error() {
    let roundtrip: Result<Result<Option<MongoDBData>, ()>, RoundtripError> =
        Err(RoundtripError::ReplyFailed);
    let (status, body) = subscribe_response_of_roundtrip(&roundtrip);
    assert_eq!(status, 500);
    assert!(body.is_none());
}

#[test]
fn current_data_error() {
    let roundtrip: Result<Result<Option<MongoDBData>, ()>, RoundtripError> = Ok(Err(()));
    let (status, body) = subscribe_response_of_roundtrip(&roundtrip);
    assert_eq!(status, 200);
    assert_eq!(body.unwrap(), r#"{"error":{"code":1003,"message":"internal error"}}"#);
}

#[test]
fn success_no_data() {
    let lookup: Result<Option<MongoDBData>, ()> = Ok(None);
    let body = subscribe_response(&lookup).unwrap();
    assert_eq!(body, r#"{"result":{"data":{}}}"#);
    let (status, roundtrip_body) = subscribe_response_of_roundtrip(&Ok(lookup));
    assert_eq!(status, 200);
    assert_eq!(roundtrip_body.unwrap(), r#"{"result":{"data":{}}}"#);
}

#[test]
fn success_with_data() {
    let mut tags_update_data = MongoDBData::with_capacity(2);
    tags_update_data.insert_value("first".to_string(), FieldValue::Int32(9));
    tags_update_data.insert_value("second".to_string(), FieldValue::Str("other".to_string()));
    tags_update_data.insert_timestamp("one".to_string(), 1673598600000);
    tags_update_data.insert_timestamp("two".to_string(), 471411000000);

    let lookup: Result<Option<MongoDBData>, ()> = Ok(Some(tags_update_data));
    let body = subscribe_response(&lookup).unwrap();

    assert!(body.starts_with(r#"{"result":{"data":{"#));
    assert!(body.contains(r#""first":9"#));
    assert!(body.contains(r#""second":"other""#));
    assert!(body.contains(r#""ts":{"#));
    assert!(body.contains(r#""one":"2023-01-13T08:30:00Z""#));
    assert!(body.contains(r#""two":"1984-12-09T03:30:00Z""#));
}

#[test]
fn proxy_error_codes_and_messages() {
    assert_eq!(CentrifugoProxyError::UnsupportedProtocol.code(), 1000);
    assert_eq!(CentrifugoProxyError::UnsupportedEncoding.code(), 1001);
    assert_eq!(CentrifugoProxyError::BadChannelNamespace.code(), 1002);
    assert_eq!(CentrifugoProxyError::InternalError.code(), 1003);
    assert_eq!(CentrifugoProxyError::UnsupportedProtocol.message(), "unsupported protocol");
    assert_eq!(CentrifugoProxyError::UnsupportedEncoding.message(), "unsupported encoding");
    assert_eq!(CentrifugoProxyError::BadChannelNamespace.message(), "bad channel namespace");
    assert_eq!(CentrifugoProxyError::InternalError.message(), "internal error");
}
