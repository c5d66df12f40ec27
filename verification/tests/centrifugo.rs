use centrifugo_change_stream::centrifugo::{
    health_probe_request, health_reply, publish_outcome, publish_request_body, tags_update_step,
    PublishResponse,
};
use centrifugo_change_stream::model::{FieldValue, UpdateEvent};

#[test]
fn publish_body_exact() {
    let body = publish_request_body("somechannel", "\"somedata\"");
    assert_eq!(body, r#"{"channel":"somechannel","data":"somedata"}"#);
}

#[test]
fn bad_status_code() {
    let result = publish_outcome(500, Some(PublishResponse::Ack));
    assert!(result.is_err());
}

#[test]
fn unknown_response() {
    let result = publish_outcome(200, None);
    assert!(result.is_err());
}

#[test]
fn centrifugo_error() {
    let result = publish_outcome(
        200,
        Some(PublishResponse::Error { code: 42, message: "a message".to_string() }),
    );
    assert!(result.is_err());
}

#[test]
fn centrifugo_success() {
    let result = publish_outcome(200, Some(PublishResponse::Ack));
    assert!(result.is_ok());
}

#[test]
fn health_probe_body() {
    let (channel, body) = health_probe_request();
    assert_eq!(channel, "_");
    assert_eq!(body, r#"{"channel":"_","data":null}"#);
}

#[test]
fn tags_update_step_builds_publish() {
    let update_event = UpdateEvent {
        ns_db: "db".to_string(),
        ns_coll: "coll".to_string(),
        document_id: "doc".to_string(),
        updated_fields: vec![
            ("val.n".to_string(), FieldValue::Int64(-3)),
            ("ts.at".to_string(), FieldValue::DateTime(0)),
        ],
    };
    let (channel, body) = tags_update_step(update_event).unwrap();
    assert_eq!(channel, "db.coll:doc");
    assert_eq!(
        body,
        r#"{"channel":"db.coll:doc","data":{"val":{"n":-3},"ts":{"at":"1970-01-01T00:00:00Z"}}}"#
    );
}

#[test]
fn health_reply_reflects_outcome() {
    assert!(health_reply(&Ok(())));
    assert!(!health_reply(&Err(())));
}
