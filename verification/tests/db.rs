use centrifugo_change_stream::db::{
    change_stream_step, current_data_reply, run_change_stream, CollectionNamespace, CursorItem,
    FetchOutcome, StreamAction,
};
use centrifugo_change_stream::model::{FieldValue, MongoDBData, UpdateEvent};
use centrifugo_change_stream::shutdown::CancellationSignal;

fn event(id: &str) -> UpdateEvent {
    UpdateEvent {
        ns_db: "db".to_string(),
        ns_coll: "coll".to_string(),
        document_id: id.to_string(),
        updated_fields: vec![("val.x".to_string(), FieldValue::Int32(1))],
    }
}

#[test]
fn namespace_rendering() {
    let ns = CollectionNamespace { db: "testdb".to_string(), coll: "testcoll".to_string() };
    assert_eq!(ns.namespace(), "testdb.testcoll");
    assert_eq!(ns.channel_prefix(), "testdb.testcoll:");
}

#[test]
fn change_stream_forwards_event() {
    let action = change_stream_step(CursorItem::Event(event("a")));
    match action {
        StreamAction::Forward(e) => assert_eq!(e.document_id, "a"),
        StreamAction::Fatal => panic!("expected a forward"),
    }
}

#[test]
fn change_stream_error_fatal() {
    assert!(matches!(change_stream_step(CursorItem::Error), StreamAction::Fatal));
}

#[test]
fn run_change_stream_keeps_order() {
    let items = vec![
        CursorItem::Event(event("a")),
        CursorItem::Event(event("b")),
        CursorItem::Event(event("c")),
    ];
    let mut queue = Vec::new();
    let mut signal = CancellationSignal::new();
    let fatal = run_change_stream(items, &mut queue, 10, &mut signal);
    assert!(!fatal);
    assert!(!signal.is_cancelled());
    let ids: Vec<&str> = queue.iter().map(|e| e.document_id.as_str()).collect();
    assert_eq!(ids, ["a", "b", "c"]);
}

#[test]
fn run_change_stream_drops_when_full() {
    let items = vec![CursorItem::Event(event("a")), CursorItem::Event(event("b"))];
    let mut queue = Vec::new();
    let mut signal = CancellationSignal::new();
    let fatal = run_change_stream(items, &mut queue, 1, &mut signal);
    assert!(!fatal);
    assert_eq!(queue.len(), 1);
    assert_eq!(queue[0].document_id, "a");
}

#[test]
fn run_change_stream_error_cancels() {
    let items = vec![
        CursorItem::Event(event("a")),
        CursorItem::Error,
        CursorItem::Event(event("b")),
    ];
    let mut queue = Vec::new();
    let mut signal = CancellationSignal::new();
    let fatal = run_change_stream(items, &mut queue, 10, &mut signal);
    assert!(fatal);
    assert!(signal.is_cancelled());
    assert_eq!(queue.len(), 1);
    assert_eq!(queue[0].document_id, "a");
}

#[test]
fn current_data_reply_variants() {
    let data = MongoDBData::with_capacity(0);
    assert!(matches!(current_data_reply(FetchOutcome::Found(data)), Ok(Some(_))));
    assert!(matches!(current_data_reply(FetchOutcome::Missing), Ok(None)));
    assert!(matches!(current_data_reply(FetchOutcome::FetchError), Err(())));
}

#[test]
fn signal_starts_clear_and_stays_cancelled() {
    let mut signal = CancellationSignal::new();
    assert!(!signal.is_cancelled());
    signal.cancel();
    assert!(signal.is_cancelled());
    signal.cancel();
    assert!(signal.is_cancelled());
}
