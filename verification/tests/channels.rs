use cornerback::channels::buffer::{BufferChannel, BufferConfig};
use cornerback::channels::collector::{take_first, CollectorChannel};
use cornerback::channels::filter::{filter_step, FilterStep};
use cornerback::channels::join::JoinChannel;
use cornerback::channels::transform::{forward_result, Next};
use std::time::{Duration, Instant};

#[test]
fn buffer_config_defaults() {
    let c = BufferConfig::default();
    assert_eq!(c.max_size, 100);
    assert_eq!(c.max_age_nanos, 5_000_000_000);
}

#[test]
fn buffer_flushes_when_full() {
    let mut b: BufferChannel<u32> =
        BufferChannel::new("batch", BufferConfig { max_size: 3, max_age_nanos: 60_000_000_000 });
    assert_eq!(b.buffer(1), None);
    assert_eq!(b.buffer(2), None);
    assert_eq!(b.size(), 2);
    assert_eq!(b.buffer(3), Some(vec![1, 2, 3]));
    assert_eq!(b.size(), 0);
    assert_eq!(b.span_name(), "batch");
}

#[test]
fn buffer_flushes_when_old() {
    let mut b: BufferChannel<u32> =
        BufferChannel::new("batch", BufferConfig { max_size: 10, max_age_nanos: 5_000_000_000 });
    let start = b.last_flush();
    let early = start + Duration::from_nanos(4_999_999_999);
    assert_eq!(b.buffer_at(1, early), None);
    assert_eq!(b.last_flush(), start);
    let due = start + Duration::from_secs(5);
    assert_eq!(b.buffer_at(2, due), Some(vec![1, 2]));
    // The flush restarts the age.
    assert_eq!(b.last_flush(), due);
    assert_eq!(b.buffer_at(3, due + Duration::from_secs(1)), None);
    // With no maximum age every event is flushed at once.
    let mut eager: BufferChannel<u32> =
        BufferChannel::new("eager", BufferConfig { max_size: 10, max_age_nanos: 0 });
    assert_eq!(eager.buffer(7), Some(vec![7]));
}

#[test]
fn buffer_manual_flush() {
    let mut b: BufferChannel<u32> = BufferChannel::new("batch", BufferConfig::default());
    let start = b.last_flush();
    assert_eq!(b.flush(), None);
    assert_eq!(b.last_flush(), start);
    b.buffer(4);
    let later = start + Duration::from_millis(1);
    assert_eq!(b.flush_at(later), Some(vec![4]));
    assert_eq!(b.last_flush(), later);
    assert_eq!(b.flush_at(later + Duration::from_millis(1)), None);
    assert_eq!(b.last_flush(), later);
    let _ = Instant::now();
}

#[test]
fn join_takes_the_batch_when_ready() {
    let mut j: JoinChannel<u32> = JoinChannel::new("join");
    j.push(1);
    let ready = j.pending().len() >= 2;
    assert_eq!(j.take_if(ready), None);
    j.push(2);
    let ready = j.pending().len() >= 2;
    assert_eq!(j.take_if(ready), Some(vec![1, 2]));
    assert_eq!(j.buffer_size(), 0);
    j.push(3);
    assert_eq!(j.flush(), Some(vec![3]));
    assert_eq!(j.flush(), None);
}

#[test]
fn join_swallows_merge_failures() {
    assert_eq!(JoinChannel::<u32>::merge_outcome(Ok(5)), Ok(Some(5)));
    assert_eq!(JoinChannel::<u32>::merge_outcome(Err("bad".to_string())), Ok(None));
}

#[test]
fn join_flush_passes_merge_failures_on() {
    assert_eq!(JoinChannel::<u32>::flush_outcome(Ok(5)), Ok(Some(5)));
    assert_eq!(JoinChannel::<u32>::flush_outcome(Err("bad".to_string())), Err("bad".to_string()));
}

#[test]
fn collector_forwards_once_or_stops() {
    assert!(matches!(CollectorChannel::<u32>::after_strategy(Ok(9)), Next::Forward(9)));
    assert!(matches!(
        CollectorChannel::<u32>::after_strategy(Err("none".to_string())),
        Next::Stop(e) if e == "none"
    ));
}

#[test]
fn filter_forwards_or_rejects() {
    assert!(matches!(filter_step(1u32, true), FilterStep::Forward(1)));
    match filter_step(2u32, false) {
        FilterStep::Reject(e, m) => {
            assert_eq!(e, 2);
            assert_eq!(m, "Event rejected by filter");
        }
        other => panic!("unexpected {:?}", other),
    }
}

#[test]
fn transform_errors_stop_the_chain() {
    assert!(matches!(forward_result::<u32>(Ok(3)), Next::Forward(3)));
    assert!(matches!(forward_result::<u32>(Err("x".to_string())), Next::Stop(e) if e == "x"));
}

#[test]
fn collector_collects_until_flushed() {
    let mut c: CollectorChannel<&str> = CollectorChannel::new("pages");
    assert_eq!(c.flush(), None);
    c.collect("a");
    c.collect("b");
    assert_eq!(c.buffer_size(), 2);
    assert_eq!(c.flush(), Some(vec!["a", "b"]));
    assert_eq!(c.buffer_size(), 0);
}

#[test]
fn first_collection_strategy() {
    assert_eq!(take_first(vec![3, 4]), Ok(3));
    assert_eq!(take_first::<u32>(vec![]), Err("No events to collect".to_string()));
}

use cornerback::channels::splitter::{SplitDelivery, SplitStep};

fn sent_part(step: SplitStep<u32>) -> u32 {
    match step {
        SplitStep::Send(p) => p,
        other => panic!("expected a part, got {:?}", other),
    }
}

#[test]
fn splitter_sends_every_part_in_order() {
    let (mut d, step) = SplitDelivery::start(Ok(vec![1, 2]));
    assert_eq!(sent_part(step), 1);
    assert_eq!(sent_part(d.resume(Ok(()))), 2);
    assert!(matches!(d.resume(Ok(())), SplitStep::Finish(Ok(()))));
    assert!(d.is_done());
}

#[test]
fn splitter_stops_at_the_first_failure() {
    let (mut d, step) = SplitDelivery::start(Ok(vec![1, 2, 3]));
    assert_eq!(sent_part(step), 1);
    match d.resume(Err("next failed".to_string())) {
        SplitStep::Finish(Err(e)) => assert_eq!(e, "next failed"),
        other => panic!("unexpected {:?}", other),
    }
    assert!(d.is_done());
}

#[test]
fn splitter_reports_a_failed_split_and_accepts_no_parts() {
    let (d, step) = SplitDelivery::<u32>::start(Err("cannot split".to_string()));
    assert!(d.is_done());
    assert!(matches!(step, SplitStep::Finish(Err(e)) if e == "cannot split"));
    let (d, step) = SplitDelivery::<u32>::start(Ok(vec![]));
    assert!(d.is_done());
    assert!(matches!(step, SplitStep::Finish(Ok(()))));
}

use cornerback::channels::examples::{
    enrich, is_batch, is_high_priority, is_urgent, split_items, WebhookEvent,
};
use cornerback::json::JsonValue;

fn webhook(priority: &str, payload: JsonValue) -> WebhookEvent {
    WebhookEvent {
        id: "evt-123".to_string(),
        event_type: "batch_process".to_string(),
        priority: priority.to_string(),
        payload,
    }
}

fn entries(v: &JsonValue) -> Vec<(String, JsonValue)> {
    match v {
        JsonValue::Object(e) => e.clone(),
        other => panic!("not an object: {:?}", other),
    }
}

#[test]
fn example_filters() {
    assert!(is_high_priority(&webhook("high", JsonValue::Null)));
    assert!(!is_high_priority(&webhook("critical", JsonValue::Null)));
    assert!(is_urgent(&webhook("critical", JsonValue::Null)));
    assert!(!is_urgent(&webhook("low", JsonValue::Null)));
    assert!(is_batch(&webhook("low", JsonValue::Null)));
}

#[test]
fn enrich_sets_the_two_fields() {
    let at = JsonValue::String("2024-01-01T00:00:00Z".to_string());
    let e = enrich(webhook("high", JsonValue::Null), at.clone());
    let fields = entries(&e.payload);
    assert_eq!(fields.len(), 2);
    assert!(fields.contains(&("enriched".to_string(), JsonValue::Bool(true))));
    assert!(fields.contains(&("processed_at".to_string(), at.clone())));
    let keep = JsonValue::Object(vec![("a".to_string(), JsonValue::Bool(false))]);
    let e = enrich(webhook("high", keep), at);
    assert_eq!(entries(&e.payload).len(), 3);
    assert_eq!(e.id, "evt-123");
}

#[test]
fn split_items_makes_one_event_per_item() {
    let items: Vec<JsonValue> = (0..12).map(|i| JsonValue::Number(i.to_string())).collect();
    let payload = JsonValue::Object(vec![("items".to_string(), JsonValue::Array(items))]);
    let parts = split_items(webhook("high", payload));
    assert_eq!(parts.len(), 12);
    assert_eq!(parts[0].id, "evt-123-item-0");
    assert_eq!(parts[11].id, "evt-123-item-11");
    assert_eq!(parts[11].payload, JsonValue::Number("11".to_string()));
    assert_eq!(parts[3].priority, "high");
    let whole = split_items(webhook("low", JsonValue::Object(vec![])));
    assert_eq!(whole.len(), 1);
    assert_eq!(whole[0].id, "evt-123");
    let not_array = JsonValue::Object(vec![("items".to_string(), JsonValue::Null)]);
    assert_eq!(split_items(webhook("low", not_array)).len(), 1);
}
