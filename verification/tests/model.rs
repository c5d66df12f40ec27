use centrifugo_change_stream::model::{FieldValue, MongoDBData, UpdateEvent};

fn event(
    db: &str,
    coll: &str,
    id: &str,
    fields: Vec<(&str, FieldValue)>,
) -> UpdateEvent {
    UpdateEvent {
        ns_db: db.to_string(),
        ns_coll: coll.to_string(),
        document_id: id.to_string(),
        updated_fields: fields.into_iter().map(|(k, v)| (k.to_string(), v)).collect(),
    }
}

#[test]
fn into_centrifugo() {
    let update_event = event(
        "testdb",
        "testcoll",
        "testid",
        vec![
            ("ignored", FieldValue::Int32(42)),
            ("val.first", FieldValue::Bool(true)),
            ("val.second", FieldValue::Int32(5646)),
            ("ts.invalid", FieldValue::Bool(false)),
            ("ts.some", FieldValue::DateTime(0)),
            ("ts.other", FieldValue::DateTime(45000)),
        ],
    );

    let (channel, data) = update_event.into_centrifugo();

    assert_eq!(channel, "testdb.testcoll:testid");

    assert_eq!(data.val_len(), 2);
    assert!(matches!(data.get_value("first"), Some(FieldValue::Bool(true))));
    assert!(matches!(data.get_value("second"), Some(FieldValue::Int32(5646))));

    assert_eq!(data.ts_len(), 2);
    assert_eq!(data.get_timestamp("some"), Some(0));
    assert_eq!(data.get_timestamp("other"), Some(45000));
}

#[test]
fn transform_drops_unprefixed_fields() {
    let update_event = event(
        "db",
        "coll",
        "doc",
        vec![
            ("plain", FieldValue::Int32(1)),
            ("value.x", FieldValue::Int32(2)),
            ("tsish", FieldValue::DateTime(5)),
        ],
    );
    let (_, data) = update_event.into_centrifugo();
    assert_eq!(data.val_len(), 0);
    assert_eq!(data.ts_len(), 0);
}

#[test]
fn transform_drops_non_timestamp_alone() {
    let with_bad = event(
        "db",
        "coll",
        "doc",
        vec![
            ("val.a", FieldValue::Int32(1)),
            ("ts.bad", FieldValue::Str("nope".to_string())),
            ("ts.good", FieldValue::DateTime(7)),
        ],
    );
    let without_bad = event(
        "db",
        "coll",
        "doc",
        vec![
            ("val.a", FieldValue::Int32(1)),
            ("ts.good", FieldValue::DateTime(7)),
        ],
    );
    let (_, data_with) = with_bad.into_centrifugo();
    let (_, data_without) = without_bad.into_centrifugo();
    assert_eq!(data_with.val_len(), 1);
    assert_eq!(data_with.ts_len(), 1);
    assert!(matches!(data_with.get_value("a"), Some(FieldValue::Int32(1))));
    assert_eq!(data_with.get_timestamp("good"), Some(7));
    assert!(data_with.get_timestamp("bad").is_none());
    assert_eq!(data_without.val_len(), data_with.val_len());
    assert_eq!(data_without.ts_len(), data_with.ts_len());
    assert_eq!(data_without.get_timestamp("good"), Some(7));
}

#[test]
fn transform_concrete_scenario() {
    let timestamp = 1673598600000;
    let update_event = event(
        "db",
        "coll",
        "doc",
        vec![
            ("val.count", FieldValue::Int32(3)),
            ("ts.updatedAt", FieldValue::DateTime(timestamp)),
            ("unrelated", FieldValue::Int32(1)),
        ],
    );
    let (_, data) = update_event.into_centrifugo();
    assert_eq!(data.val_len(), 1);
    assert!(matches!(data.get_value("count"), Some(FieldValue::Int32(3))));
    assert_eq!(data.ts_len(), 1);
    assert_eq!(data.get_timestamp("updatedAt"), Some(timestamp));
    assert!(data.get_value("unrelated").is_none());
    assert!(data.get_timestamp("unrelated").is_none());
}

#[test]
fn transform_deterministic() {
    let make = || {
        event(
            "db",
            "coll",
            "doc",
            vec![
                ("val.a", FieldValue::Str("x".to_string())),
                ("ts.t", FieldValue::DateTime(99)),
                ("other", FieldValue::Null),
            ],
        )
    };
    let (channel_a, data_a) = make().into_centrifugo();
    let (channel_b, data_b) = make().into_centrifugo();
    assert_eq!(channel_a, channel_b);
    assert_eq!(
        centrifugo_change_stream::json::render_data(&data_a),
        centrifugo_change_stream::json::render_data(&data_b)
    );
}

#[test]
fn insert_value_replaces() {
    let mut data = MongoDBData::with_capacity(2);
    assert!(data.insert_value("k".to_string(), FieldValue::Int32(1)).is_none());
    let old = data.insert_value("k".to_string(), FieldValue::Int32(2));
    assert!(matches!(old, Some(FieldValue::Int32(1))));
    assert_eq!(data.val_len(), 1);
    assert!(matches!(data.get_value("k"), Some(FieldValue::Int32(2))));
}

#[test]
fn insert_timestamp_replaces() {
    let mut data = MongoDBData::with_capacity(2);
    assert!(data.insert_timestamp("t".to_string(), 5).is_none());
    assert_eq!(data.insert_timestamp("t".to_string(), 6), Some(5));
    assert_eq!(data.ts_len(), 1);
    assert_eq!(data.get_timestamp("t"), Some(6));
}

#[test]
fn with_capacity_empty() {
    let data = MongoDBData::with_capacity(8);
    assert_eq!(data.val_len(), 0);
    assert_eq!(data.ts_len(), 0);
    assert!(data.get_value("anything").is_none());
}

#[test]
fn field_value_equality() {
    assert!(FieldValue::Str("a".to_string()).same_as(&FieldValue::Str("a".to_string())));
    assert!(!FieldValue::Str("a".to_string()).same_as(&FieldValue::Str("b".to_string())));
    assert!(FieldValue::DateTime(5).same_as(&FieldValue::DateTime(5)));
    assert!(!FieldValue::Int32(1).same_as(&FieldValue::Int64(1)));
    assert!(FieldValue::Null.same_as(&FieldValue::Null));
}
