//! The decisions of the example webhook pipelines: which events they accept,
//! how they enrich an event, and how they split a batch into its items.
use vstd::prelude::*;

use crate::json::{
    entries_map, items_view, lemma_items_view_index, object_get, object_insert, Json, JsonValue,
};

verus! {

/// A webhook event of the example pipelines.
#[derive(Debug)]
pub struct WebhookEvent {
    pub id: String,
    pub event_type: String,
    pub priority: String,
    pub payload: JsonValue,
}

/// The view of a [`WebhookEvent`].
pub struct WebhookView {
    pub id: Seq<char>,
    pub event_type: Seq<char>,
    pub priority: Seq<char>,
    pub payload: Json,
}

impl View for WebhookEvent {
    type V = WebhookView;

    open spec fn view(&self) -> WebhookView {
        WebhookView {
            id: self.id@,
            event_type: self.event_type@,
            priority: self.priority@,
            payload: self.payload@,
        }
    }
}

impl Clone for WebhookEvent {
    fn clone(&self) -> (r: WebhookEvent)
        ensures
            r@ == self@,
    {
        WebhookEvent {
            id: self.id.clone(),
            event_type: self.event_type.clone(),
            priority: self.priority.clone(),
            payload: self.payload.clone(),
        }
    }
}

/// The decimal digit `d` (0 to 9) as a character.
pub open spec fn digit_char(d: nat) -> char {
    (48 + d) as char
}

/// The decimal numeral of `n`, without leading zeros.
pub open spec fn decimal(n: nat) -> Seq<char>
    decreases n,
{
    if n < 10 {
        seq![digit_char(n)]
    } else {
        decimal(n / 10) + seq![digit_char(n % 10)]
    }
}

/// The value of the decimal digit character `c`.
pub open spec fn digit_value(c: char) -> int {
    c as int - 48
}

/// `c` is one of the characters `0` to `9`.
pub open spec fn is_digit(c: char) -> bool {
    '0' <= c && c <= '9'
}

/// The number that the digits `s` spell in base ten, the most significant
/// digit first.
pub open spec fn numeral_value(s: Seq<char>) -> int
    decreases s.len(),
{
    if s.len() == 0 {
        0
    } else {
        numeral_value(s.drop_last()) * 10 + digit_value(s.last())
    }
}

/// The numeral of `n` reads back as `n`: it is made of digits only, read from
/// the most significant digit to the least it spells `n` in base ten, and it
/// has no leading zero (a numeral of more than one digit starts with `1` to
/// `9`).
pub proof fn lemma_decimal_reads_back(n: nat)
    ensures
        decimal(n).len() >= 1,
        forall|i: int| 0 <= i < decimal(n).len() ==> is_digit(#[trigger] decimal(n)[i]),
        numeral_value(decimal(n)) == n,
        n > 0 ==> decimal(n)[0] != '0',
    decreases n,
{
    if n < 10 {
        let s = decimal(n);
        assert(s.drop_last() =~= Seq::<char>::empty());
        assert(s[0] == digit_char(n));
        assert(digit_value(digit_char(n)) == n);
        assert(numeral_value(s.drop_last()) == 0);
    } else {
        let q = n / 10;
        let r = n % 10;
        lemma_decimal_reads_back(q);
        let s = decimal(n);
        assert(s == decimal(q) + seq![digit_char(r)]);
        assert(s.drop_last() =~= decimal(q));
        assert(s.last() == digit_char(r));
        assert(forall|i: int| 0 <= i < s.len() ==> #[trigger] s[i] == if i < decimal(q).len() {
            decimal(q)[i]
        } else {
            digit_char(r)
        });
        assert(digit_value(digit_char(r)) == r);
        assert(n == q * 10 + r);
    }
}

/// The digit `d` as text.
fn digit_text(d: usize) -> (r: &'static str)
    requires
        d < 10,
    ensures
        r@ == seq![digit_char(d as nat)],
{
    proof {
        reveal_strlit("0");
        reveal_strlit("1");
        reveal_strlit("2");
        reveal_strlit("3");
        reveal_strlit("4");
        reveal_strlit("5");
        reveal_strlit("6");
        reveal_strlit("7");
        reveal_strlit("8");
        reveal_strlit("9");
    }
    let r = match d {
        0 => "0",
        1 => "1",
        2 => "2",
        3 => "3",
        4 => "4",
        5 => "5",
        6 => "6",
        7 => "7",
        8 => "8",
        _ => "9",
    };
    assert(r@ =~= seq![digit_char(d as nat)]);
    r
}

/// Appends the decimal numeral of `n` to `out`.
fn push_decimal(out: &mut String, n: usize)
    ensures
        final(out)@ == old(out)@ + decimal(n as nat),
    decreases n,
{
    if n >= 10 {
        push_decimal(out, n / 10);
    }
    out.append(digit_text(n % 10));
    assert(final(out)@ =~= old(out)@ + decimal(n as nat));
}

/// The event is of high priority.
pub fn is_high_priority(event: &WebhookEvent) -> (r: bool)
    ensures
        r == (event.priority@ == "high"@),
{
    let high = "high".to_string();
    event.priority == high
}

/// The event is of high or critical priority.
pub fn is_urgent(event: &WebhookEvent) -> (r: bool)
    ensures
        r == (event.priority@ == "high"@ || event.priority@ == "critical"@),
{
    let high = "high".to_string();
    let critical = "critical".to_string();
    event.priority == high || event.priority == critical
}

/// The event asks for batch processing.
pub fn is_batch(event: &WebhookEvent) -> (r: bool)
    ensures
        r == (event.event_type@ == "batch_process"@),
{
    let batch = "batch_process".to_string();
    event.event_type == batch
}

/// A payload that indexing by key can write to: an object, or null (which
/// becomes an object).
pub open spec fn writable(payload: Json) -> bool {
    payload is Null || payload is Object
}

/// The payload with the enrichment fields set: `enriched` is `true` and
/// `processed_at` is the given time.
pub open spec fn enriched(payload: Json, processed_at: Json) -> Json {
    let m = match payload {
        Json::Object(m) => m,
        _ => Map::empty(),
    };
    Json::Object(m.insert("enriched"@, Json::Bool(true)).insert("processed_at"@, processed_at))
}

/// Marks the event as enriched and stamps it with `processed_at`. The payload
/// must be an object or null: setting a key of any other JSON value panics.
pub fn enrich(event: WebhookEvent, processed_at: JsonValue) -> (r: WebhookEvent)
    requires
        writable(event.payload@),
    ensures
        r@ == (WebhookView { payload: enriched(event.payload@, processed_at@), ..event@ }),
{
    let WebhookEvent { id, event_type, priority, payload } = event;
    let entries: Vec<(String, JsonValue)> = match payload {
        JsonValue::Object(entries) => entries,
        _ => {
            assert(entries_map(Seq::<(String, JsonValue)>::empty()) =~= Map::empty());
            Vec::new()
        },
    };
    let entries = object_insert(entries, "enriched".to_string(), JsonValue::Bool(true));
    let entries = object_insert(entries, "processed_at".to_string(), processed_at);
    proof {
        reveal_strlit("enriched");
        reveal_strlit("processed_at");
    }
    WebhookEvent { id, event_type, priority, payload: JsonValue::Object(entries) }
}

/// The items of a batch payload: the array under its `items` key.
pub open spec fn batch_items(payload: Json) -> Option<Seq<Json>> {
    match payload {
        Json::Object(m) => if m.contains_key("items"@) {
            match m["items"@] {
                Json::Array(xs) => Some(xs),
                _ => None,
            }
        } else {
            None
        },
        _ => None,
    }
}

/// The `i`-th item of a batch, as an event of its own.
pub open spec fn item_event(e: WebhookView, i: nat, item: Json) -> WebhookView {
    WebhookView { id: e.id + "-item-"@ + decimal(i), payload: item, ..e }
}

/// Splits a batch event into one event per item: the `i`-th carries the item as
/// its payload and `<id>-item-<i>` as its identifier. An event without an array
/// of items is left whole.
pub fn split_items(event: WebhookEvent) -> (r: Vec<WebhookEvent>)
    ensures
        match batch_items(event@.payload) {
            Some(xs) => r@.len() == xs.len() && forall|i: int|
                0 <= i < xs.len() ==> #[trigger] r@[i]@ == item_event(event@, i as nat, xs[i]),
            None => r@.len() == 1 && r@[0]@ == event@,
        },
{
    proof {
        reveal_strlit("items");
        reveal_strlit("-item-");
    }
    let mut parts: Vec<WebhookEvent> = Vec::new();
    let items: Option<&Vec<JsonValue>> = match &event.payload {
        JsonValue::Object(entries) => match object_get(entries, "items") {
            Some(JsonValue::Array(items)) => Some(items),
            _ => None,
        },
        _ => None,
    };
    match items {
        Some(items) => {
            proof {
                lemma_items_view_index(items@);
            }
            let ghost xs = items_view(items@);
            assert(batch_items(event@.payload) == Some(xs));
            let mut i: usize = 0;
            while i < items.len()
                invariant
                    i <= items@.len(),
                    xs == items_view(items@),
                    xs.len() == items@.len(),
                    forall|k: int| 0 <= k < items@.len() ==> #[trigger] xs[k] == items@[k]@,
                    parts@.len() == i,
                    forall|k: int|
                        0 <= k < i ==> #[trigger] parts@[k]@ == item_event(event@, k as nat, xs[k]),
                decreases items@.len() - i,
            {
                let mut id = event.id.clone();
                id.append("-item-");
                push_decimal(&mut id, i);
                let part = WebhookEvent {
                    id,
                    event_type: event.event_type.clone(),
                    priority: event.priority.clone(),
                    payload: items[i].clone(),
                };
                assert(part@ == item_event(event@, i as nat, xs[i as int]));
                parts.push(part);
                i = i + 1;
            }
            parts
        },
        None => {
            parts.push(event);
            parts
        },
    }
}

} // verus!
