//! Webhook events as they are captured and stored.
use vstd::prelude::*;

use crate::clock::{clock_error_message, now, Timestamp};
use crate::json::{json_keys_distinct, object_insert, Json, JsonValue};

verus! {

/// The identifier of an event: the 128 bits of a UUID.
pub type EventId = u128;

/// The view of an [`Event`].
pub struct EventView {
    pub id: EventId,
    pub webhook_id: Seq<char>,
    pub headers: Json,
    pub body: Json,
    pub created_at: Timestamp,
}

/// A captured webhook event.
#[derive(Debug)]
pub struct Event {
    pub id: EventId,
    pub webhook_id: String,
    pub headers: JsonValue,
    pub body: JsonValue,
    /// When the event was captured.
    pub created_at: Timestamp,
}

impl View for Event {
    type V = EventView;

    open spec fn view(&self) -> EventView {
        EventView {
            id: self.id,
            webhook_id: self.webhook_id@,
            headers: self.headers@,
            body: self.body@,
            created_at: self.created_at,
        }
    }
}

/// An event as it arrives, before it is given an identifier and a time.
#[derive(Debug)]
pub struct NewEvent {
    pub webhook_id: String,
    pub headers: JsonValue,
    pub body: JsonValue,
}

/// The view of a [`NewEvent`].
pub struct NewEventView {
    pub webhook_id: Seq<char>,
    pub headers: Json,
    pub body: Json,
}

impl View for NewEvent {
    type V = NewEventView;

    open spec fn view(&self) -> NewEventView {
        NewEventView { webhook_id: self.webhook_id@, headers: self.headers@, body: self.body@ }
    }
}

/// The headers after the header `key` is set to the string `value`: an object
/// gains (or replaces) that entry, anything else is replaced by an object with
/// that single entry.
pub open spec fn headers_with(headers: Json, key: Seq<char>, value: Seq<char>) -> Json {
    match headers {
        Json::Object(m) => Json::Object(m.insert(key, Json::Str(value))),
        _ => Json::Object(Map::empty().insert(key, Json::Str(value))),
    }
}

/// Setting a header twice to the same value is the same as setting it once.
pub proof fn lemma_headers_with_idempotent(headers: Json, key: Seq<char>, value: Seq<char>)
    ensures
        headers_with(headers_with(headers, key, value), key, value) == headers_with(
            headers,
            key,
            value,
        ),
{
    match headers {
        Json::Object(m) => {
            assert(m.insert(key, Json::Str(value)).insert(key, Json::Str(value)) =~= m.insert(
                key,
                Json::Str(value),
            ));
        },
        _ => {
            let single = Map::<Seq<char>, Json>::empty().insert(key, Json::Str(value));
            assert(single.insert(key, Json::Str(value)) =~= single);
        },
    }
}

/// Setting a header leaves every other header of an object as it was, and the
/// header then holds the value.
pub proof fn lemma_headers_with_keeps_others(m: Map<Seq<char>, Json>, key: Seq<char>, value: Seq<char>, other: Seq<char>)
    requires
        other != key,
    ensures
        headers_with(Json::Object(m), key, value) matches Json::Object(n) && n.contains_key(key)
            && n[key] == Json::Str(value) && n.contains_key(other) == m.contains_key(other) && (
        m.contains_key(other) ==> n[other] == m[other]),
{
}

/// The 128 bits `id` carry the marks of a random (version 4) UUID: the version
/// nibble (bits 76 to 79) is 4 and the variant bits (62 and 63) are `10`.
pub open spec fn is_v4_id(id: EventId) -> bool {
    (id >> 76u128) & 0xfu128 == 4 && (id >> 62u128) & 0x3u128 == 2
}

/// A fresh random (version 4) UUID, as its 128 bits.
///
/// Calls `uuid::Uuid::new_v4` and reads the result with `Uuid::as_u128`. The value
/// comes from a random source; what holds of every outcome is that `new_v4` sets
/// the version nibble to 4 and the variant bits to `10`.
#[verifier::external_body]
pub(crate) fn new_event_id() -> (id: EventId)
    ensures
        (id >> 76u128) & 0xfu128 == 4,
        (id >> 62u128) & 0x3u128 == 2,
{
    uuid::Uuid::new_v4().as_u128()
}

impl Event {
    /// A new event with a fresh random identifier, stamped with the current time;
    /// an error when the system clock cannot be read as a timestamp.
    pub fn new(webhook_id: String, headers: JsonValue, body: JsonValue) -> (r: Result<Event, String>)
        ensures
            r matches Ok(e) ==> e.webhook_id == webhook_id && e.headers == headers && e.body == body
                && 0 <= e.created_at.secs && e.created_at.nanos < 1_000_000_000 && is_v4_id(e.id),
            r matches Err(m) ==> m@ == clock_error_message(),
    {
        let created_at = match now() {
            Ok(t) => t,
            Err(m) => return Err(m),
        };
        let id: EventId = new_event_id();
        Ok(Event { id, webhook_id, headers, body, created_at })
    }

    /// Sets the header `key` to the string `value` and returns a copy of the
    /// event as it then is.
    ///
    /// When the headers are an object, the entry for `key` is added or replaced;
    /// otherwise the headers become an object holding only that entry.
    pub fn add_header(&mut self, key: &str, value: &str) -> (r: Event)
        ensures
            final(self).id == old(self).id,
            final(self).webhook_id == old(self).webhook_id,
            final(self).body == old(self).body,
            final(self).created_at == old(self).created_at,
            final(self).headers@ == headers_with(old(self).headers@, key@, value@),
            json_keys_distinct(old(self).headers) ==> json_keys_distinct(final(self).headers),
            r@ == final(self)@,
    {
        let mut headers = JsonValue::Null;
        std::mem::swap(&mut headers, &mut self.headers);
        let k = key.to_string();
        let v = JsonValue::String(value.to_string());
        let ghost vv = v@;
        self.headers = match headers {
            JsonValue::Object(entries) => {
                let updated = object_insert(entries, k, v);
                JsonValue::Object(updated)
            },
            _ => {
                let empty: Vec<(String, JsonValue)> = Vec::new();
                let single = object_insert(empty, k, v);
                JsonValue::Object(single)
            },
        };
        proof {
            assert(vv == Json::Str(value@));
        }
        self.clone()
    }
}

impl Clone for Event {
    fn clone(&self) -> (r: Event)
        ensures
            r@ == self@,
    {
        Event {
            id: self.id,
            webhook_id: self.webhook_id.clone(),
            headers: self.headers.clone(),
            body: self.body.clone(),
            created_at: self.created_at,
        }
    }
}

impl Clone for NewEvent {
    fn clone(&self) -> (r: NewEvent)
        ensures
            r@ == self@,
    {
        NewEvent {
            webhook_id: self.webhook_id.clone(),
            headers: self.headers.clone(),
            body: self.body.clone(),
        }
    }
}

} // verus!
