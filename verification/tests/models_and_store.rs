use cornerback::clock::{timestamp_from, Timestamp};
use cornerback::json::JsonValue;
use cornerback::models::{Event, NewEvent};
use cornerback::store::{InMemoryEventStore, Paging};

fn obj(entries: Vec<(&str, JsonValue)>) -> JsonValue {
    JsonValue::Object(entries.into_iter().map(|(k, v)| (k.to_string(), v)).collect())
}

fn text(s: &str) -> JsonValue {
    JsonValue::String(s.to_string())
}

fn field<'a>(v: &'a JsonValue, key: &str) -> Option<&'a JsonValue> {
    match v {
        JsonValue::Object(entries) => entries.iter().rev().find(|(k, _)| k == key).map(|(_, v)| v),
        _ => None,
    }
}

#[test]
fn test_event_creation_and_headers() {
    let mut event = Event::new(
        "test-webhook".to_string(),
        obj(vec![("Content-Type", text("application/json"))]),
        obj(vec![("message", text("Hello, World!"))]),
    )
    .unwrap();

    assert_eq!(event.webhook_id, "test-webhook");
    assert_eq!(field(&event.headers, "Content-Type"), Some(&text("application/json")));
    assert_eq!(field(&event.body, "message"), Some(&text("Hello, World!")));

    event.add_header("X-Test-Header", "TestValue");
    assert_eq!(field(&event.headers, "X-Test-Header"), Some(&text("TestValue")));
}

#[test]
fn test_in_memory_event_store() {
    let mut store = InMemoryEventStore::new();

    let incoming_event_1 = NewEvent {
        webhook_id: "test-webhook".to_string(),
        headers: obj(vec![("Content-Type", text("application/json"))]),
        body: obj(vec![("message", text("Hello, World!"))]),
    };

    let incoming_event_2 = NewEvent {
        webhook_id: "test-webhook".to_string(),
        headers: obj(vec![("Content-Type", text("application/json"))]),
        body: obj(vec![("message", text("Hello again!"))]),
    };

    // Insert events and verify they are stored correctly.
    let event_1 = store.insert_event(incoming_event_1).unwrap();
    let event_2 = store.insert_event(incoming_event_2).unwrap();

    assert_eq!(event_1.webhook_id, "test-webhook");
    assert_eq!(field(&event_1.headers, "Content-Type"), Some(&text("application/json")));
    assert_eq!(field(&event_1.body, "message"), Some(&text("Hello, World!")));

    // Get events by ID and verify they match the inserted events.
    let fetched_event_1 = store
        .get_event(event_1.id)
        .unwrap()
        .expect("expected event_1 to exist in store");
    assert_eq!(fetched_event_1.id, event_1.id);

    let fetched_event_2 = store
        .get_event(event_2.id)
        .unwrap()
        .expect("expected event_2 to exist in store");
    assert_eq!(fetched_event_2.id, event_2.id);

    // List events for the webhook and verify both events are returned.
    let events = store
        .list_events("test-webhook", Paging { limit: None, offset: None })
        .unwrap();
    assert_eq!(events.len(), 2);

    // limit
    let events_limited = store
        .list_events("test-webhook", Paging { limit: Some(1), offset: None })
        .unwrap();
    assert_eq!(events_limited.len(), 1);
    assert_eq!(events_limited[0].id, event_1.id);

    // offset
    let events_offset = store
        .list_events("test-webhook", Paging { limit: None, offset: Some(1) })
        .unwrap();
    assert_eq!(events_offset.len(), 1);
    assert_eq!(events_offset[0].id, event_2.id);
}

fn at(secs: i64) -> Timestamp {
    Timestamp { secs, nanos: 0 }
}

fn new_event(webhook: &str, n: i64) -> NewEvent {
    NewEvent {
        webhook_id: webhook.to_string(),
        headers: obj(vec![]),
        body: obj(vec![("n", JsonValue::Number(n.to_string()))]),
    }
}

#[test]
fn insert_at_stores_the_given_identifier_and_time() {
    let mut store = InMemoryEventStore::new();
    let t = Timestamp { secs: 1_700_000_000, nanos: 123_456_789 };
    let e = store.insert_event_at(new_event("w", 1), 42, t).unwrap();
    assert_eq!(e.id, 42);
    assert_eq!(e.created_at, t);
    assert_eq!(store.len(), 1);
    let got = store.get_event(42).unwrap().unwrap();
    assert_eq!(got.body, e.body);
    assert!(store.get_event(43).unwrap().is_none());
}

#[test]
fn get_returns_the_first_event_with_an_identifier() {
    let mut store = InMemoryEventStore::new();
    store.insert_event_at(new_event("w", 1), 7, at(0)).unwrap();
    store.insert_event_at(new_event("w", 2), 7, at(0)).unwrap();
    let got = store.get_event(7).unwrap().unwrap();
    assert_eq!(field(&got.body, "n"), Some(&JsonValue::Number("1".to_string())));
}

#[test]
fn listing_keeps_only_the_webhook_in_insertion_order() {
    let mut store = InMemoryEventStore::new();
    for i in 0..5 {
        let webhook = if i % 2 == 0 { "even" } else { "odd" };
        store.insert_event_at(new_event(webhook, i), i as u128, at(i)).unwrap();
    }
    let even = store.list_events("even", Paging { limit: None, offset: None }).unwrap();
    let ids: Vec<u128> = even.iter().map(|e| e.id).collect();
    assert_eq!(ids, vec![0, 2, 4]);
    let odd = store.list_events("odd", Paging { limit: Some(1), offset: Some(1) }).unwrap();
    assert_eq!(odd.iter().map(|e| e.id).collect::<Vec<_>>(), vec![3]);
    assert!(store.list_events("none", Paging { limit: None, offset: None }).unwrap().is_empty());
}

#[test]
fn listing_defaults_to_one_hundred_events() {
    let mut store = InMemoryEventStore::new();
    for i in 0..150 {
        store.insert_event_at(new_event("w", i), i as u128, at(i)).unwrap();
    }
    let page = store.list_events("w", Paging { limit: None, offset: None }).unwrap();
    assert_eq!(page.len(), 100);
    assert_eq!(page[99].id, 99);
    let rest = store.list_events("w", Paging { limit: None, offset: Some(100) }).unwrap();
    assert_eq!(rest.len(), 50);
    assert_eq!(rest[0].id, 100);
}

#[test]
fn negative_paging_counts_wrap_as_unsigned() {
    let mut store = InMemoryEventStore::new();
    for i in 0..3 {
        store.insert_event_at(new_event("w", i), i as u128, at(i)).unwrap();
    }
    // A negative offset skips everything; a negative limit keeps everything.
    assert!(store.list_events("w", Paging { limit: None, offset: Some(-1) }).unwrap().is_empty());
    assert_eq!(store.list_events("w", Paging { limit: Some(-1), offset: None }).unwrap().len(), 3);
    assert!(store.list_events("w", Paging { limit: Some(0), offset: None }).unwrap().is_empty());
    assert!(store.list_events("w", Paging { limit: None, offset: Some(3) }).unwrap().is_empty());
}

#[test]
fn update_replaces_and_reports_missing_events() {
    let mut store = InMemoryEventStore::new();
    let mut e = store.insert_event_at(new_event("w", 1), 5, at(0)).unwrap();
    e.add_header("x-cornerback-replay", "true");
    store.update_event(e.clone()).unwrap();
    let got = store.get_event(5).unwrap().unwrap();
    assert_eq!(field(&got.headers, "x-cornerback-replay"), Some(&text("true")));

    let missing = Event {
        id: 6,
        webhook_id: "w".to_string(),
        headers: JsonValue::Null,
        body: JsonValue::Null,
        created_at: at(0),
    };
    assert_eq!(store.update_event(missing), Err("Event not found".to_string()));
    assert_eq!(store.len(), 1);
}

#[test]
fn delete_removes_and_reports_missing_events() {
    let mut store = InMemoryEventStore::new();
    store.insert_event_at(new_event("w", 1), 1, at(0)).unwrap();
    store.insert_event_at(new_event("w", 2), 2, at(0)).unwrap();
    store.delete_event(1).unwrap();
    assert!(store.get_event(1).unwrap().is_none());
    assert!(store.get_event(2).unwrap().is_some());
    assert_eq!(store.delete_event(1), Err("Event not found".to_string()));
    assert_eq!(store.len(), 1);
}

#[test]
fn add_header_replaces_an_existing_header_and_keeps_others() {
    let mut event = Event::new(
        "w".to_string(),
        obj(vec![("a", text("1")), ("b", text("2"))]),
        JsonValue::Null,
    )
    .unwrap();
    let copy = event.add_header("a", "3");
    assert_eq!(field(&event.headers, "a"), Some(&text("3")));
    assert_eq!(field(&event.headers, "b"), Some(&text("2")));
    match &event.headers {
        JsonValue::Object(entries) => assert_eq!(entries.len(), 2),
        other => panic!("headers are not an object: {:?}", other),
    }
    assert_eq!(copy.headers, event.headers);
    assert_eq!(copy.id, event.id);
}

#[test]
fn add_header_turns_non_object_headers_into_an_object() {
    let mut event = Event::new("w".to_string(), JsonValue::Array(vec![]), JsonValue::Null).unwrap();
    event.add_header("k", "v");
    assert_eq!(event.headers, obj(vec![("k", text("v"))]));
}

#[test]
fn new_events_get_distinct_identifiers() {
    let a = Event::new("w".to_string(), JsonValue::Null, JsonValue::Null).unwrap();
    let b = Event::new("w".to_string(), JsonValue::Null, JsonValue::Null).unwrap();
    assert_ne!(a.id, b.id);
    // Version 4 UUIDs carry the version nibble 4.
    assert_eq!((a.id >> 76) & 0xF, 4);
    assert_eq!((a.id >> 62) & 0x3, 2);
    assert!(a.created_at.secs > 1_600_000_000);
    assert!(a.created_at.nanos < 1_000_000_000);
}

#[test]
fn json_clone_is_deep_and_equal() {
    let v = obj(vec![
        ("list", JsonValue::Array(vec![JsonValue::Bool(true), JsonValue::Null])),
        ("nested", obj(vec![("x", JsonValue::Number("1.5".to_string()))])),
    ]);
    let c = v.clone();
    assert_eq!(c, v);
}

#[test]
fn timestamps_from_epoch_readings() {
    assert_eq!(timestamp_from(Some((1_700_000_000, 5))), Ok(Timestamp { secs: 1_700_000_000, nanos: 5 }));
    assert_eq!(timestamp_from(Some((i64::MAX as u64, 0))), Ok(Timestamp { secs: i64::MAX, nanos: 0 }));
    let msg = "system clock is outside the supported range".to_string();
    assert_eq!(timestamp_from(Some((i64::MAX as u64 + 1, 0))), Err(msg.clone()));
    assert_eq!(timestamp_from(None), Err(msg));
    let t = cornerback::clock::now().unwrap();
    assert!(t.secs > 1_600_000_000 && t.nanos < 1_000_000_000);
}
