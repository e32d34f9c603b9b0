use kountr::event::CounterEvent;
use kountr::event_store::{EventStore, StoredEvent};
use kountr::payload::{decode_event, encode_event};

fn all_kinds() -> Vec<CounterEvent> {
    vec![
        CounterEvent::CounterCreated { aggregate_id: "a1".to_string(), name: "n".to_string(), value: 5 },
        CounterEvent::CounterIncremented { aggregate_id: "a1".to_string(), amount: 3 },
        CounterEvent::CounterDecremented { aggregate_id: "a1".to_string(), amount: -4 },
        CounterEvent::CounterUpdated { aggregate_id: "a1".to_string(), name: "x".to_string(), value: 9 },
        CounterEvent::CounterDeleted { aggregate_id: "a1".to_string() },
    ]
}

#[test]
fn payload_round_trip_for_every_kind() {
    for event in all_kinds() {
        let payload = encode_event(&event);
        assert_eq!(decode_event(&payload), Some(event));
    }
}

#[test]
fn payload_round_trip_for_awkward_text_and_bounds() {
    let events = vec![
        CounterEvent::CounterCreated {
            aggregate_id: "q\"uo\\te".to_string(),
            name: "line\nbreak\ttab\rret é ✓".to_string(),
            value: i32::MIN,
        },
        CounterEvent::CounterUpdated { aggregate_id: String::new(), name: String::new(), value: i32::MAX },
        CounterEvent::CounterIncremented { aggregate_id: "z".to_string(), amount: 0 },
    ];
    for event in events {
        assert_eq!(decode_event(&encode_event(&event)), Some(event));
    }
}

#[test]
fn payload_text_is_exact() {
    let texts = vec![
        r#"{"CounterCreated":{"aggregate_id":"a1","name":"n","value":5}}"#,
        r#"{"CounterIncremented":{"aggregate_id":"a1","amount":3}}"#,
        r#"{"CounterDecremented":{"aggregate_id":"a1","amount":-4}}"#,
        r#"{"CounterUpdated":{"aggregate_id":"a1","name":"x","value":9}}"#,
        r#"{"CounterDeleted":{"aggregate_id":"a1"}}"#,
    ];
    for (event, text) in all_kinds().iter().zip(texts) {
        assert_eq!(encode_event(event), text);
    }
    let tricky = CounterEvent::CounterDeleted { aggregate_id: "a\"b\\c\nd".to_string() };
    assert_eq!(encode_event(&tricky), r#"{"CounterDeleted":{"aggregate_id":"a\"b\\c\nd"}}"#);
}

#[test]
fn decode_rejects_other_text() {
    let rejected = vec![
        "",
        "{}",
        r#"{"CounterCreated":{"aggregate_id":"a1","name":"n","value":05}}"#,
        r#"{"CounterCreated":{"aggregate_id":"a1","name":"n","value":-0}}"#,
        r#"{"CounterCreated":{"aggregate_id":"a1","name":"n","value":2147483648}}"#,
        r#"{"CounterCreated": {"aggregate_id":"a1","name":"n","value":5}}"#,
        r#"{"CounterCreated":{"aggregate_id":"a1","name":"n","value":5}} "#,
        r#"{"CounterCreated":{"aggregate_id":"a1","value":5}}"#,
        r#"{"CounterRenamed":{"aggregate_id":"a1"}}"#,
        "{\"CounterDeleted\":{\"aggregate_id\":\"a\nb\"}}",
    ];
    for text in rejected {
        assert_eq!(decode_event(text), None, "{}", text);
    }
}

#[test]
fn event_type_tags() {
    let tags: Vec<String> = all_kinds().iter().map(|e| e.to_string()).collect();
    assert_eq!(
        tags,
        vec!["CounterCreated", "CounterIncremented", "CounterDecremented", "CounterUpdated", "CounterDeleted"]
    );
    let ids: Vec<String> = all_kinds().iter().map(|e| e.aggregate_id()).collect();
    assert!(ids.iter().all(|id| id == "a1"));
}

#[test]
fn stored_record_holds_tag_payload_and_position() {
    let event = CounterEvent::CounterIncremented { aggregate_id: "a1".to_string(), amount: 3 };
    let record = StoredEvent::new("r1".to_string(), &event, 7);
    assert_eq!(record.id, "r1");
    assert_eq!(record.aggregate_id, "a1");
    assert_eq!(record.event_type, "CounterIncremented");
    assert_eq!(record.payload, r#"{"CounterIncremented":{"aggregate_id":"a1","amount":3}}"#);
    assert_eq!(record.sequence, 7);
    assert_eq!(record.event(), Some(event));
}

#[test]
fn event_store_appends_and_loads_in_order() {
    let mut store = EventStore::new();
    assert!(store.load_events(&"a1".to_string()).is_empty());
    let mut batch = all_kinds();
    batch.insert(2, CounterEvent::CounterIncremented { aggregate_id: "b2".to_string(), amount: 1 });
    store.save_events(&batch);
    store.save_events(&vec![CounterEvent::CounterIncremented { aggregate_id: "a1".to_string(), amount: 8 }]);
    let mut expected = all_kinds();
    expected.push(CounterEvent::CounterIncremented { aggregate_id: "a1".to_string(), amount: 8 });
    assert_eq!(store.load_events(&"a1".to_string()), expected);
    assert_eq!(
        store.load_events(&"b2".to_string()),
        vec![CounterEvent::CounterIncremented { aggregate_id: "b2".to_string(), amount: 1 }]
    );
    assert!(store.load_events(&"zz".to_string()).is_empty());
}
