use std::collections::HashMap;

use cornerback::config::{AppConfig, EventStoreConfig, StoreBackend, TargetServerConfig};
use cornerback::error::ApiError;
use cornerback::headers::{header_flag, HeaderEntry};
use cornerback::json::JsonValue;
use cornerback::models::Event;
use cornerback::shared::{
    default_json_object, delivery_outcome, found_event, listed_events, process_event_request,
    replay_event_request, Action, EventRequest, IncomingEventPayload, Outcome, Reply,
    X_CORNERBACK_REPLAY_HEADER, X_CORNERBACK_SEND_TARGET_HEADER,
};
use cornerback::store::{InMemoryEventStore, Paging};

fn obj(entries: Vec<(&str, JsonValue)>) -> JsonValue {
    JsonValue::Object(entries.into_iter().map(|(k, v)| (k.to_string(), v)).collect())
}

fn text(s: &str) -> JsonValue {
    JsonValue::String(s.to_string())
}

fn field<'a>(v: &'a JsonValue, key: &str) -> Option<&'a JsonValue> {
    match v {
        JsonValue::Object(entries) => entries.iter().rev().find(|(k, _)| k == key).map(|(_, v)| v),
        _ => None,
    }
}

fn header(name: &str, value: &str) -> HeaderEntry {
    HeaderEntry { name: name.to_string(), value: value.as_bytes().to_vec() }
}

fn config(send_by_default: bool) -> AppConfig {
    AppConfig {
        target_server: TargetServerConfig {
            url: "http://127.0.0.1:65535".to_string(),
            headers: HashMap::new(),
        },
        event_store: EventStoreConfig::InMemory,
        send_to_target_by_default: send_by_default,
    }
}

/// Runs a request to completion against an in-memory store; the target server
/// answers every forwarded event with `target_status`.
fn run(
    store: &mut InMemoryEventStore,
    mut req: EventRequest,
    mut action: Action,
    target_status: u16,
    forwarded: &mut Vec<Event>,
) -> Result<Reply, ApiError> {
    loop {
        let outcome = match action {
            Action::Respond(r) => {
                assert!(req.is_finished());
                return r;
            }
            Action::SendToTarget(e) => {
                forwarded.push(e);
                Outcome::Sent(delivery_outcome(Ok(target_status)))
            }
            Action::FetchEvent(id) => Outcome::Fetched(store.get_event(id)),
            Action::UpdateEvent(e) => Outcome::Updated(store.update_event(e)),
            Action::InsertEvent(n) => Outcome::Inserted(store.insert_event(n)),
        };
        action = req.resume(outcome);
    }
}

fn payload(id: Option<u128>) -> IncomingEventPayload {
    IncomingEventPayload {
        id,
        headers: obj(vec![("x-test", text("true"))]),
        body: obj(vec![("foo", text("bar"))]),
    }
}

#[test]
fn routes_test_handle_event() {
    // The posted JSON `{"foo": "bar"}` is the event's body; its headers are `{}`.
    let mut store = InMemoryEventStore::new();
    let posted = IncomingEventPayload {
        id: None,
        headers: default_json_object(),
        body: obj(vec![("foo", text("bar"))]),
    };
    let headers = vec![header("content-type", "application/json")];
    let (req, action) =
        process_event_request("test".to_string(), &headers, posted, true, &config(false));
    let mut forwarded = vec![];
    // A successful answer (200) that carries the stored event's id.
    let reply = run(&mut store, req, action, 200, &mut forwarded);
    assert!(reply.is_ok());
    match reply.unwrap() {
        Reply::Stored(e) => {
            let stored = store.get_event(e.id).unwrap().expect("the answered id is stored");
            assert_eq!(stored.body, obj(vec![("foo", text("bar"))]));
            assert_eq!(stored.headers, JsonValue::Object(vec![]));
        }
        other => panic!("unexpected reply {:?}", other),
    }
}

#[test]
fn tests_test_handle_event() {
    let mut store = InMemoryEventStore::new();
    let headers = vec![header("content-type", "application/json")];
    let (req, action) =
        process_event_request("test".to_string(), &headers, payload(None), true, &config(false));
    let mut forwarded = vec![];
    let reply = run(&mut store, req, action, 200, &mut forwarded).unwrap();
    match reply {
        Reply::Stored(e) => {
            assert_eq!(field(&e.body, "foo"), Some(&text("bar")));
            assert_eq!(e.webhook_id, "test");
            assert_eq!(store.len(), 1);
        }
        other => panic!("unexpected reply {:?}", other),
    }
    assert!(forwarded.is_empty());
}

#[test]
fn proxy_mode_forwards_without_storing() {
    let mut store = InMemoryEventStore::new();
    let (req, action) =
        process_event_request("hook".to_string(), &vec![], payload(None), false, &config(false));
    let mut forwarded = vec![];
    let reply = run(&mut store, req, action, 204, &mut forwarded).unwrap();
    assert!(matches!(reply, Reply::Proxied));
    assert_eq!(store.len(), 0);
    assert_eq!(forwarded.len(), 1);
    assert_eq!(forwarded[0].webhook_id, "hook");
    assert_eq!(field(&forwarded[0].body, "foo"), Some(&text("bar")));
}

#[test]
fn proxy_mode_reports_a_rejecting_target() {
    let mut store = InMemoryEventStore::new();
    let (req, action) =
        process_event_request("hook".to_string(), &vec![], payload(None), false, &config(false));
    let mut forwarded = vec![];
    let err = run(&mut store, req, action, 404, &mut forwarded).unwrap_err();
    assert_eq!(err.status, 502);
    assert_eq!(err.error, "target returned status 404 Not Found");
}

#[test]
fn send_target_header_forwards_the_stored_event() {
    let mut store = InMemoryEventStore::new();
    let headers = vec![header(X_CORNERBACK_SEND_TARGET_HEADER, " Yes ")];
    let (req, action) =
        process_event_request("hook".to_string(), &headers, payload(None), true, &config(false));
    let mut forwarded = vec![];
    let reply = run(&mut store, req, action, 200, &mut forwarded).unwrap();
    let stored = match reply {
        Reply::Stored(e) => e,
        other => panic!("unexpected reply {:?}", other),
    };
    assert_eq!(forwarded.len(), 1);
    assert_eq!(forwarded[0].id, stored.id);
    assert_eq!(store.len(), 1);
}

#[test]
fn send_to_target_by_default_forwards_and_reports_failures() {
    let mut store = InMemoryEventStore::new();
    let (req, action) =
        process_event_request("hook".to_string(), &vec![], payload(None), true, &config(true));
    let mut forwarded = vec![];
    let err = run(&mut store, req, action, 500, &mut forwarded).unwrap_err();
    assert_eq!(err.status, 502);
    assert_eq!(err.error, "target returned status 500 Internal Server Error");
    // The event was stored before it was forwarded.
    assert_eq!(store.len(), 1);
}

#[test]
fn replay_without_id_is_refused() {
    let mut store = InMemoryEventStore::new();
    let headers = vec![header(X_CORNERBACK_REPLAY_HEADER, "TRUE")];
    let (req, action) =
        process_event_request("hook".to_string(), &headers, payload(None), true, &config(false));
    let mut forwarded = vec![];
    let err = run(&mut store, req, action, 200, &mut forwarded).unwrap_err();
    assert_eq!(err.status, 400);
    assert_eq!(err.error, "id is required when replay header is set");
    assert_eq!(store.len(), 0);
}

#[test]
fn replay_of_unknown_event_is_not_found() {
    let mut store = InMemoryEventStore::new();
    let headers = vec![header(X_CORNERBACK_REPLAY_HEADER, "1")];
    let (req, action) =
        process_event_request("hook".to_string(), &headers, payload(Some(9)), true, &config(false));
    let mut forwarded = vec![];
    let err = run(&mut store, req, action, 200, &mut forwarded).unwrap_err();
    assert_eq!(err.status, 404);
    assert_eq!(err.error, "Event not found");
    assert_eq!(err.body(), obj(vec![("error", text("Event not found"))]));
}

#[test]
fn replay_marks_the_stored_event() {
    let mut store = InMemoryEventStore::new();
    let stored = store.insert_event_at(
        cornerback::models::NewEvent {
            webhook_id: "hook".to_string(),
            headers: obj(vec![("a", text("b"))]),
            body: obj(vec![("foo", text("bar"))]),
        },
        77,
        cornerback::clock::Timestamp { secs: 0, nanos: 0 },
    )
    .unwrap();
    let (req, action) = replay_event_request(stored.id, &vec![], true, &config(false));
    let mut forwarded = vec![];
    let reply = run(&mut store, req, action, 200, &mut forwarded).unwrap();
    let replayed = match reply {
        Reply::Stored(e) => e,
        other => panic!("unexpected reply {:?}", other),
    };
    assert_eq!(replayed.id, 77);
    assert_eq!(field(&replayed.headers, X_CORNERBACK_REPLAY_HEADER), Some(&text("true")));
    assert_eq!(field(&replayed.headers, "a"), Some(&text("b")));
    let again = store.get_event(77).unwrap().unwrap();
    assert_eq!(again.headers, replayed.headers);
    // The replayed event is resent to the target, though no forwarding was asked.
    assert_eq!(forwarded.len(), 1);
    assert_eq!(forwarded[0].id, 77);
    assert_eq!(forwarded[0].headers, replayed.headers);
    assert_eq!(forwarded[0].body, obj(vec![("foo", text("bar"))]));
}

#[test]
fn replay_reports_a_failing_target() {
    let mut store = InMemoryEventStore::new();
    store
        .insert_event_at(
            cornerback::models::NewEvent {
                webhook_id: "hook".to_string(),
                headers: obj(vec![]),
                body: obj(vec![]),
            },
            8,
            cornerback::clock::Timestamp { secs: 0, nanos: 0 },
        )
        .unwrap();
    let (req, action) = replay_event_request(8, &vec![], true, &config(false));
    let mut forwarded = vec![];
    let err = run(&mut store, req, action, 503, &mut forwarded).unwrap_err();
    assert_eq!(err.status, 502);
    assert_eq!(err.error, "target returned status 503 Service Unavailable");
    assert_eq!(forwarded.len(), 1);
}

#[test]
fn replay_in_proxy_mode_forwards_a_copy() {
    let mut store = InMemoryEventStore::new();
    store
        .insert_event_at(
            cornerback::models::NewEvent {
                webhook_id: "hook".to_string(),
                headers: obj(vec![]),
                body: obj(vec![("foo", text("bar"))]),
            },
            5,
            cornerback::clock::Timestamp { secs: 0, nanos: 0 },
        )
        .unwrap();
    let (req, action) = replay_event_request(5, &vec![], false, &config(false));
    let mut forwarded = vec![];
    let reply = run(&mut store, req, action, 200, &mut forwarded).unwrap();
    assert!(matches!(reply, Reply::Proxied));
    assert_eq!(forwarded.len(), 1);
    assert_eq!(forwarded[0].webhook_id, "hook");
    assert_ne!(forwarded[0].id, 5);
}

#[test]
fn replay_of_missing_event_is_not_found() {
    let mut store = InMemoryEventStore::new();
    let (req, action) = replay_event_request(1, &vec![], true, &config(false));
    let mut forwarded = vec![];
    let err = run(&mut store, req, action, 200, &mut forwarded).unwrap_err();
    assert_eq!(err.status, 404);
}

#[test]
fn store_failures_are_internal_errors() {
    let (mut req, action) =
        process_event_request("hook".to_string(), &vec![], payload(None), true, &config(false));
    assert!(matches!(action, Action::InsertEvent(_)));
    match req.resume(Outcome::Inserted(Err("disk full".to_string()))) {
        Action::Respond(Err(e)) => {
            assert_eq!(e.status, 500);
            assert_eq!(e.error, "disk full");
            assert_eq!(e.details, None);
        }
        other => panic!("unexpected action {:?}", other),
    }
}

#[test]
fn header_flags_accept_the_documented_words() {
    for v in ["1", "true", "yes", "on", " TRUE ", "\tOn", "Yes"] {
        assert!(header_flag(&vec![header("x-flag", v)], "x-flag"), "{:?}", v);
    }
    for v in ["0", "false", "no", "off", "", "tru e", "y"] {
        assert!(!header_flag(&vec![header("x-flag", v)], "x-flag"), "{:?}", v);
    }
    // Not visible ASCII: the value is not text.
    let bad = HeaderEntry { name: "x-flag".to_string(), value: vec![b't', b'r', b'u', b'e', 0x7f] };
    assert!(!header_flag(&vec![bad], "x-flag"));
    // Absent header, and only the first value of a name counts.
    assert!(!header_flag(&vec![header("x-other", "true")], "x-flag"));
    assert!(!header_flag(&vec![header("x-flag", "no"), header("x-flag", "yes")], "x-flag"));
}

#[test]
fn delivery_outcomes() {
    assert!(delivery_outcome(Ok(200)).is_ok());
    assert!(delivery_outcome(Ok(299)).is_ok());
    let e = delivery_outcome(Ok(302)).unwrap_err();
    assert_eq!((e.status, e.error.as_str()), (502, "target returned status 302 Found"));
    let e = delivery_outcome(Ok(599)).unwrap_err();
    assert_eq!(e.error, "target returned status 599 <unknown status code>");
    let e = delivery_outcome(Err("connection refused".to_string())).unwrap_err();
    assert_eq!((e.status, e.error.as_str()), (502, "target send failed: connection refused"));
}

#[test]
fn lookups_and_listings_as_answers() {
    let e = Event::new("w".to_string(), JsonValue::Null, JsonValue::Null).unwrap();
    let id = e.id;
    assert_eq!(found_event(Ok(Some(e))).unwrap().id, id);
    let missing = found_event(Ok(None)).unwrap_err();
    assert_eq!((missing.status, missing.error.as_str()), (404, "Event not found"));
    let failed = found_event(Err("db down".to_string())).unwrap_err();
    assert_eq!((failed.status, failed.error.as_str()), (500, "db down"));
    assert_eq!(listed_events(Ok(vec![])).unwrap().len(), 0);
    assert_eq!(listed_events(Err("db down".to_string())).unwrap_err().status, 500);
    let store = InMemoryEventStore::new();
    assert!(store.list_events("w", Paging { limit: None, offset: None }).unwrap().is_empty());
}

#[test]
fn api_errors_and_their_bodies() {
    let e = ApiError::not_found("Widget");
    assert_eq!((e.status, e.error.as_str()), (404, "Widget not found"));
    assert_eq!(ApiError::bad_request("bad".to_string()).status, 400);
    assert_eq!(ApiError::internal_error("oops".to_string()).status, 500);
    assert_eq!(ApiError::bad_gateway("down".to_string()).status, 502);
    let d = ApiError::with_details(418, "teapot".to_string(), "short and stout".to_string());
    assert_eq!(
        d.body(),
        obj(vec![("error", text("teapot")), ("details", text("short and stout"))])
    );
    assert_eq!(ApiError::new(400, "x".to_string()).details, None);
}

#[test]
fn default_payload_headers_are_an_empty_object() {
    assert_eq!(default_json_object(), JsonValue::Object(vec![]));
}

#[test]
fn store_choice_follows_the_configuration() {
    match (EventStoreConfig::Postgres { database_url: "postgres://db".to_string() }).backend() {
        Ok(StoreBackend::Postgres { database_url }) => assert_eq!(database_url, "postgres://db"),
        other => panic!("unexpected {:?}", other),
    }
    assert!(matches!(EventStoreConfig::InMemory.backend(), Ok(StoreBackend::InMemory)));
    let err = (EventStoreConfig::Custom { name: "redis".to_string() }).backend().unwrap_err();
    assert_eq!(
        err,
        "custom event store 'redis' is not wired in cornerbackd build_app; provide an app-specific builder"
    );
    assert!(!cornerback::config::default_send_to_target());
}

#[test]
fn replaying_equals_posting_with_the_replay_header() {
    let stored_event = || cornerback::models::NewEvent {
        webhook_id: "hook".to_string(),
        headers: obj(vec![("a", text("b"))]),
        body: obj(vec![("foo", text("bar"))]),
    };
    let at = cornerback::clock::Timestamp { secs: 0, nanos: 0 };

    let mut first = InMemoryEventStore::new();
    first.insert_event_at(stored_event(), 3, at).unwrap();
    let (req, action) = replay_event_request(3, &vec![], true, &config(false));
    let mut sent_by_replay = vec![];
    let by_replay = run(&mut first, req, action, 200, &mut sent_by_replay).unwrap();

    let mut second = InMemoryEventStore::new();
    let e = second.insert_event_at(stored_event(), 3, at).unwrap();
    let posted = IncomingEventPayload { id: Some(e.id), headers: e.headers, body: e.body };
    let headers = vec![header(X_CORNERBACK_REPLAY_HEADER, "true")];
    let (req, action) = process_event_request("hook".to_string(), &headers, posted, true, &config(false));
    let mut sent_by_post = vec![];
    let by_post = run(&mut second, req, action, 200, &mut sent_by_post).unwrap();

    match (by_replay, by_post) {
        (Reply::Stored(a), Reply::Stored(b)) => {
            assert_eq!((a.id, &a.headers, &a.body), (b.id, &b.headers, &b.body));
        }
        other => panic!("unexpected replies {:?}", other),
    }
    assert_eq!(sent_by_replay.len(), sent_by_post.len());
    assert_eq!(first.get_event(3).unwrap().unwrap().headers, second.get_event(3).unwrap().unwrap().headers);
}
