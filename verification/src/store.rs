//! Event storage: paging of listings, and an in-memory store.
use vstd::prelude::*;

use crate::clock::{clock_error_message, now, Timestamp};
use crate::models::{is_v4_id, new_event_id, Event, EventId, EventView, NewEvent};

verus! {

/// Which slice of a listing to return. `limit` defaults to 100 and `offset` to 0.
#[derive(Debug, Clone, Copy, PartialEq, Eq)]
pub struct Paging {
    pub limit: Option<i64>,
    pub offset: Option<i64>,
}

/// The number of events a listing returns when no limit is given.
pub const DEFAULT_LIMIT: i64 = 100;

/// The message of the error returned for an identifier that no stored event has.
pub open spec fn not_found_message() -> Seq<char> {
    "Event not found"@
}

/// The page of `items` that `paging` selects: the first `offset` items are
/// skipped and at most `limit` of the rest are kept.
///
/// The counts are taken as unsigned machine words (64 bits), as the listing's
/// cast does: a negative offset skips everything and a negative limit keeps
/// everything.
pub open spec fn page<T>(items: Seq<T>, paging: Paging) -> Seq<T> {
    let offset: i64 = match paging.offset {
        Some(o) => o,
        None => 0,
    };
    let limit: i64 = match paging.limit {
        Some(l) => l,
        None => DEFAULT_LIMIT,
    };
    let rest = if offset < 0 || offset >= items.len() {
        Seq::empty()
    } else {
        items.skip(offset as int)
    };
    if limit < 0 || limit >= rest.len() {
        rest
    } else {
        rest.take(limit as int)
    }
}

/// The events of webhook `webhook_id`, in the order in which they are stored.
pub open spec fn events_of(events: Seq<EventView>, webhook_id: Seq<char>) -> Seq<EventView>
    decreases events.len(),
{
    if events.len() == 0 {
        Seq::empty()
    } else {
        let rest = events_of(events.drop_last(), webhook_id);
        if events.last().webhook_id == webhook_id {
            rest.push(events.last())
        } else {
            rest
        }
    }
}

/// Some stored event has identifier `id`.
pub open spec fn has_id(events: Seq<EventView>, id: EventId) -> bool {
    exists|i: int| 0 <= i < events.len() && #[trigger] events[i].id == id
}

/// `i` is the position of the first stored event with identifier `id`.
pub open spec fn is_first_with_id(events: Seq<EventView>, id: EventId, i: int) -> bool {
    &&& 0 <= i < events.len()
    &&& events[i].id == id
    &&& forall|j: int| 0 <= j < i ==> #[trigger] events[j].id != id
}

/// The position of the first stored event with identifier `id`, if there is one.
pub open spec fn first_with_id(events: Seq<EventView>, id: EventId) -> Option<int> {
    if has_id(events, id) {
        Some(choose|i: int| is_first_with_id(events, id, i))
    } else {
        None
    }
}

/// The first stored event with identifier `id`, if there is one.
pub open spec fn lookup(events: Seq<EventView>, id: EventId) -> Option<EventView> {
    match first_with_id(events, id) {
        Some(i) => Some(events[i]),
        None => None,
    }
}

/// The views of a list of events.
pub open spec fn views(events: Seq<Event>) -> Seq<EventView> {
    events.map_values(|e: Event| e@)
}

/// The first event with `id` is the one at `i`, and `first_with_id` names it.
pub proof fn lemma_first_with_id(events: Seq<EventView>, id: EventId, i: int)
    requires
        is_first_with_id(events, id, i),
    ensures
        first_with_id(events, id) == Some(i),
{
    assert(has_id(events, id));
    let c: int = choose|c: int| is_first_with_id(events, id, c);
    assert(is_first_with_id(events, id, c));
    if c < i {
        assert(events[c].id != id);
    } else if c > i {
        assert(events[i].id != id);
    }
}

/// A read after an insert: the inserted event is found under its identifier
/// when no event stored before had that identifier; every other lookup is
/// unchanged.
pub proof fn lemma_lookup_after_insert(events: Seq<EventView>, e: EventView, id: EventId)
    ensures
        !has_id(events, e.id) ==> lookup(events.push(e), e.id) == Some(e),
        id != e.id ==> lookup(events.push(e), id) == lookup(events, id),
        has_id(events, id) ==> lookup(events.push(e), id) == lookup(events, id),
{
    let s = events.push(e);
    if !has_id(events, e.id) {
        assert forall|j: int| 0 <= j < events.len() implies #[trigger] s[j].id != e.id by {
            assert(s[j] == events[j]);
        }
        assert(is_first_with_id(s, e.id, events.len() as int));
        lemma_first_with_id(s, e.id, events.len() as int);
    }
    if has_id(events, id) {
        lemma_first_existence(events, id);
        let i: int = choose|i: int| is_first_with_id(events, id, i);
        assert(is_first_with_id(s, id, i));
        lemma_first_with_id(events, id, i);
        lemma_first_with_id(s, id, i);
    } else if id != e.id {
        assert forall|j: int| 0 <= j < s.len() implies #[trigger] s[j].id != id by {
            if j < events.len() {
                assert(s[j] == events[j]);
            }
        }
        assert(!has_id(s, id));
    }
}

/// When some event has identifier `id`, there is a first one.
pub proof fn lemma_first_existence(events: Seq<EventView>, id: EventId)
    requires
        has_id(events, id),
    ensures
        exists|i: int| is_first_with_id(events, id, i),
    decreases events.len(),
{
    let prefix = events.drop_last();
    if has_id(prefix, id) {
        lemma_first_existence(prefix, id);
        let i: int = choose|i: int| is_first_with_id(prefix, id, i);
        assert(prefix[i] == events[i]);
        assert forall|j: int| 0 <= j < i implies #[trigger] events[j].id != id by {
            assert(prefix[j] == events[j]);
        }
        assert(is_first_with_id(events, id, i));
    } else {
        let k: int = choose|k: int| 0 <= k < events.len() && #[trigger] events[k].id == id;
        if k < prefix.len() {
            assert(prefix[k].id == id);
        }
        assert forall|j: int| 0 <= j < events.len() - 1 implies #[trigger] events[j].id != id by {
            assert(prefix[j] == events[j]);
        }
        assert(is_first_with_id(events, id, events.len() - 1));
    }
}

/// A read after an update: once an update has replaced the event with
/// identifier `e.id`, that identifier finds the new event.
pub proof fn lemma_lookup_after_update(events: Seq<EventView>, e: EventView)
    requires
        has_id(events, e.id),
    ensures
        first_with_id(events, e.id) matches Some(i) && lookup(events.update(i, e), e.id) == Some(e),
{
    lemma_first_existence(events, e.id);
    let i: int = choose|i: int| is_first_with_id(events, e.id, i);
    lemma_first_with_id(events, e.id, i);
    let s = events.update(i, e);
    assert(is_first_with_id(s, e.id, i));
    lemma_first_with_id(s, e.id, i);
}

/// A read after a delete: once the only event with identifier `id` has been
/// removed, that identifier finds nothing.
pub proof fn lemma_lookup_after_delete(events: Seq<EventView>, id: EventId)
    requires
        forall|i: int, j: int|
            0 <= i < events.len() && 0 <= j < events.len() && #[trigger] events[i].id == id
                && #[trigger] events[j].id == id ==> i == j,
    ensures
        first_with_id(events, id) matches Some(i) ==> lookup(events.remove(i), id) is None,
{
    if has_id(events, id) {
        lemma_first_existence(events, id);
        let i: int = choose|i: int| is_first_with_id(events, id, i);
        lemma_first_with_id(events, id, i);
        let s = events.remove(i);
        assert forall|j: int| 0 <= j < s.len() implies #[trigger] s[j].id != id by {
            if j < i {
                assert(s[j] == events[j]);
            } else {
                assert(s[j] == events[j + 1]);
            }
        }
    }
}

/// A listing after an insert: the new event comes last among the events of its
/// webhook, and the listings of other webhooks are unchanged.
pub proof fn lemma_listing_after_insert(events: Seq<EventView>, e: EventView, webhook_id: Seq<char>)
    ensures
        events_of(events.push(e), webhook_id) == if e.webhook_id == webhook_id {
            events_of(events, webhook_id).push(e)
        } else {
            events_of(events, webhook_id)
        },
{
    assert(events.push(e).drop_last() =~= events);
}

/// A listing holds only events of its webhook, each of them a stored event.
pub proof fn lemma_listing_is_of_the_webhook(events: Seq<EventView>, webhook_id: Seq<char>)
    ensures
        forall|k: int|
            0 <= k < events_of(events, webhook_id).len() ==> (#[trigger] events_of(
                events,
                webhook_id,
            )[k]).webhook_id == webhook_id && events.contains(events_of(events, webhook_id)[k]),
        events_of(events, webhook_id).len() <= events.len(),
    decreases events.len(),
{
    if events.len() > 0 {
        let prefix = events.drop_last();
        lemma_listing_is_of_the_webhook(prefix, webhook_id);
        let rest = events_of(prefix, webhook_id);
        assert forall|k: int| 0 <= k < rest.len() implies events.contains(#[trigger] rest[k]) by {
            assert(prefix.contains(rest[k]));
            let j: int = choose|j: int| 0 <= j < prefix.len() && prefix[j] == rest[k];
            assert(events[j] == rest[k]);
        }
        assert(events[events.len() - 1] == events.last());
    }
}

/// The default page: without a limit or an offset a listing holds the first
/// 100 events of the webhook (all of them when there are fewer).
pub proof fn lemma_default_page<T>(items: Seq<T>)
    ensures
        page(items, Paging { limit: None, offset: None }) == if items.len() <= 100 {
            items
        } else {
            items.take(100)
        },
{
    if items.len() > 0 {
        assert(items.skip(0) =~= items);
    }
}

/// The size of a page: with an offset and a limit that are not negative, a page
/// holds `min(limit, len - offset)` items (none when the offset is past the end),
/// and they are the items from position `offset` on.
pub proof fn lemma_page_bounds<T>(items: Seq<T>, limit: i64, offset: i64)
    requires
        limit >= 0,
        offset >= 0,
    ensures
        page(items, Paging { limit: Some(limit), offset: Some(offset) }).len() == if offset
            >= items.len() {
            0
        } else if limit < items.len() - offset {
            limit as int
        } else {
            items.len() - offset
        },
        forall|k: int|
            0 <= k < page(items, Paging { limit: Some(limit), offset: Some(offset) }).len()
                ==> #[trigger] page(items, Paging { limit: Some(limit), offset: Some(offset) })[k]
                == items[offset + k],
{
}

/// The bits of a version 4 UUID with every random bit zero.
pub open spec fn v4_base() -> u128 {
    (4u128 << 76u128) | (2u128 << 62u128)
}

/// The `k`-th spare identifier: a version 4 UUID whose random bits spell `k`
/// (its low 62 bits in bits 0 to 61, the rest in bits 64 and up). A store
/// falls back on these when a drawn identifier is taken.
pub open spec fn spare_id(k: u128) -> EventId {
    v4_base() | (k & 0x3fff_ffff_ffff_ffffu128) | ((k >> 62u128) << 64u128)
}

/// Every spare identifier numbered below 2^64 is a version 4 UUID, and no two
/// of them are equal.
pub proof fn lemma_spare_ids(a: u128, b: u128)
    requires
        a < 0x1_0000_0000_0000_0000u128,
        b < 0x1_0000_0000_0000_0000u128,
    ensures
        is_v4_id(spare_id(a)),
        spare_id(a) == spare_id(b) ==> a == b,
{
    assert(is_v4_id(spare_id(a))) by (bit_vector)
        requires
            a < 0x1_0000_0000_0000_0000u128,
    ;
    assert(spare_id(a) == spare_id(b) ==> a == b) by (bit_vector)
        requires
            a < 0x1_0000_0000_0000_0000u128,
            b < 0x1_0000_0000_0000_0000u128,
    ;
}

/// A store of `events.len()` events cannot hold all of the `events.len() + 1`
/// first spare identifiers: one of them is always free.
pub proof fn lemma_a_spare_id_is_free(events: Seq<EventView>)
    requires
        events.len() < 0x1_0000_0000_0000_0000u128,
    ensures
        exists|k: int| 0 <= k <= events.len() && !has_id(events, #[trigger] spare_id(k as u128)),
{
    broadcast use vstd::seq_lib::seq_to_set_is_finite;

    let n = events.len();
    let ids = events.map_values(|e: EventView| e.id);
    let spares = Seq::new(n + 1, |k: int| spare_id(k as u128));
    if forall|k: int| 0 <= k <= n ==> has_id(events, #[trigger] spare_id(k as u128)) {
        assert(spares.no_duplicates()) by {
            assert forall|i: int, j: int|
                0 <= i < spares.len() && 0 <= j < spares.len() && i != j implies spares[i]
                != spares[j] by {
                lemma_spare_ids(i as u128, j as u128);
            }
        }
        spares.unique_seq_to_set();
        ids.lemma_cardinality_of_set();
        assert(spares.to_set().subset_of(ids.to_set())) by {
            assert forall|x: EventId| spares.to_set().contains(x) implies ids.to_set().contains(
                x,
            ) by {
                let k = choose|k: int| 0 <= k < spares.len() && spares[k] == x;
                assert(has_id(events, spare_id(k as u128)));
                let i = choose|i: int| 0 <= i < events.len() && #[trigger] events[i].id == x;
                assert(ids[i] == x);
            }
        }
        vstd::set_lib::lemma_len_subset(spares.to_set(), ids.to_set());
        assert(false);
    }
}

/// Two events stored one after the other, each under an identifier that no
/// event stored before it had, have different identifiers, and a read of
/// either identifier afterwards finds that event.
pub proof fn lemma_inserts_are_found_apart(events: Seq<EventView>, first: EventView, second: EventView)
    requires
        !has_id(events, first.id),
        !has_id(events.push(first), second.id),
    ensures
        first.id != second.id,
        lookup(events.push(first).push(second), first.id) == Some(first),
        lookup(events.push(first).push(second), second.id) == Some(second),
{
    let once = events.push(first);
    assert(once[events.len() as int].id == first.id);
    lemma_lookup_after_insert(events, first, first.id);
    lemma_lookup_after_insert(once, second, first.id);
    lemma_lookup_after_insert(once, second, second.id);
}

/// An in-memory event store, in insertion order.
pub struct InMemoryEventStore {
    events: Vec<Event>,
}

impl View for InMemoryEventStore {
    type V = Seq<EventView>;

    closed spec fn view(&self) -> Seq<EventView> {
        views(self.events@)
    }
}

impl InMemoryEventStore {
    /// An empty store.
    pub fn new() -> (r: InMemoryEventStore)
        ensures
            r@ == Seq::<EventView>::empty(),
    {
        let r = InMemoryEventStore { events: Vec::new() };
        assert(r@ =~= Seq::<EventView>::empty());
        r
    }

    /// The position of the first event with identifier `id`.
    fn position(&self, id: EventId) -> (r: Option<usize>)
        ensures
            match r {
                Some(k) => first_with_id(self@, id) == Some(k as int) && k < self.events@.len(),
                None => first_with_id(self@, id) is None,
            },
            self@.len() == self.events@.len(),
    {
        let mut i: usize = 0;
        while i < self.events.len()
            invariant
                i <= self.events@.len(),
                self@.len() == self.events@.len(),
                forall|j: int| 0 <= j < i ==> #[trigger] self@[j].id != id,
            decreases self.events@.len() - i,
        {
            if self.events[i].id == id {
                proof {
                    lemma_first_with_id(self@, id, i as int);
                }
                return Some(i);
            }
            i = i + 1;
        }
        assert(!has_id(self@, id));
        None
    }

    /// Stores a new event under the identifier `id`, stamped `created_at`, and
    /// returns it.
    pub fn insert_event_at(&mut self, new_event: NewEvent, id: EventId, created_at: Timestamp) -> (r:
        Result<Event, String>)
        ensures
            r matches Ok(e) && e@ == (EventView {
                id,
                webhook_id: new_event.webhook_id@,
                headers: new_event.headers@,
                body: new_event.body@,
                created_at,
            }),
            r matches Ok(e) && final(self)@ == old(self)@.push(e@),
    {
        let event = Event {
            id,
            webhook_id: new_event.webhook_id,
            headers: new_event.headers,
            body: new_event.body,
            created_at,
        };
        let stored = event.clone();
        self.events.push(stored);
        assert(self@ =~= old(self)@.push(event@));
        Ok(event)
    }

    /// The identifier to store a new event under, given the random identifier
    /// `drawn`: `drawn` itself when no stored event has it, else the first spare
    /// identifier (see [`spare_id`]) that no stored event has. Either way it is
    /// a version 4 UUID that no stored event has.
    pub fn fresh_event_id(&self, drawn: EventId) -> (id: EventId)
        requires
            is_v4_id(drawn),
        ensures
            is_v4_id(id),
            !has_id(self@, id),
            !has_id(self@, drawn) ==> id == drawn,
            has_id(self@, drawn) ==> exists|k: int|
                #![trigger spare_id(k as u128)]
                0 <= k <= self@.len() && id == spare_id(k as u128) && forall|j: int|
                    0 <= j < k ==> has_id(self@, #[trigger] spare_id(j as u128)),
    {
        if self.position(drawn).is_none() {
            return drawn;
        }
        let n: u128 = self.events.len() as u128;
        let mut k: u128 = 0;
        while k <= n
            invariant
                n == self@.len(),
                n < 0x1_0000_0000_0000_0000u128,
                k <= n + 1,
                has_id(self@, drawn),
                forall|j: int| 0 <= j < k ==> has_id(self@, #[trigger] spare_id(j as u128)),
            decreases n + 1 - k,
        {
            let candidate: EventId = (4u128 << 76u128) | (2u128 << 62u128) | (k
                & 0x3fff_ffff_ffff_ffffu128) | ((k >> 62u128) << 64u128);
            assert(candidate == spare_id(k));
            if self.position(candidate).is_none() {
                proof {
                    lemma_spare_ids(k, k);
                    assert(candidate == spare_id((k as int) as u128));
                }
                return candidate;
            }
            k = k + 1;
        }
        proof {
            lemma_a_spare_id_is_free(self@);
        }
        drawn
    }

    /// Stores a new event under a fresh random identifier, stamped with the
    /// current time, and returns it; when the system clock cannot be read as a
    /// timestamp, nothing is stored and the error is returned.
    ///
    /// The identifier is a version 4 UUID that no event stored before has, so a
    /// read of it finds the new event; a read of any other identifier finds
    /// what it found before.
    pub fn insert_event(&mut self, new_event: NewEvent) -> (r: Result<Event, String>)
        ensures
            r matches Ok(e) ==> e@.webhook_id == new_event.webhook_id@ && e@.headers
                == new_event.headers@ && e@.body == new_event.body@ && final(self)@ == old(
                self,
            )@.push(e@),
            r matches Ok(e) ==> is_v4_id(e@.id) && !has_id(old(self)@, e@.id) && lookup(
                final(self)@,
                e@.id,
            ) == Some(e@),
            r matches Ok(e) ==> forall|other: EventId|
                other != e@.id ==> #[trigger] lookup(final(self)@, other) == lookup(
                    old(self)@,
                    other,
                ),
            r matches Ok(e) ==> 0 <= e@.created_at.secs && e@.created_at.nanos < 1_000_000_000,
            r matches Err(m) ==> m@ == clock_error_message() && final(self)@ == old(self)@,
    {
        let created_at = match now() {
            Ok(t) => t,
            Err(m) => return Err(m),
        };
        let id: EventId = self.fresh_event_id(new_event_id());
        let r = self.insert_event_at(new_event, id, created_at);
        proof {
            if r is Ok {
                let e = r->Ok_0;
                assert forall|other: EventId| other != e@.id implies #[trigger] lookup(
                    final(self)@,
                    other,
                ) == lookup(old(self)@, other) by {
                    lemma_lookup_after_insert(old(self)@, e@, other);
                }
                lemma_lookup_after_insert(old(self)@, e@, e@.id);
            }
        }
        r
    }

    /// The first stored event with identifier `id`, if there is one.
    pub fn get_event(&self, id: EventId) -> (r: Result<Option<Event>, String>)
        ensures
            r matches Ok(found) && match found {
                Some(e) => lookup(self@, id) == Some(e@),
                None => lookup(self@, id) is None,
            },
    {
        match self.position(id) {
            Some(i) => {
                let e = self.events[i].clone();
                assert(self@[i as int] == self.events@[i as int]@);
                Ok(Some(e))
            },
            None => Ok(None),
        }
    }

    /// The events of webhook `webhook_id`, in insertion order, paged by `paging`.
    pub fn list_events(&self, webhook_id: &str, paging: Paging) -> (r: Result<Vec<Event>, String>)
        ensures
            r matches Ok(events) && views(events@) == page(events_of(self@, webhook_id@), paging),
    {
        let wanted = webhook_id.to_string();
        let mut matching: Vec<Event> = Vec::new();
        let mut i: usize = 0;
        while i < self.events.len()
            invariant
                i <= self.events@.len(),
                self@.len() == self.events@.len(),
                wanted@ == webhook_id@,
                views(matching@) == events_of(self@.take(i as int), webhook_id@),
            decreases self.events@.len() - i,
        {
            let ghost before = matching@;
            assert(self@.take(i + 1).drop_last() =~= self@.take(i as int));
            if self.events[i].webhook_id == wanted {
                matching.push(self.events[i].clone());
                assert(views(matching@) =~= views(before).push(self@[i as int]));
            }
            i = i + 1;
        }
        assert(self@.take(self@.len() as int) =~= self@);
        let offset: i64 = match paging.offset {
            Some(o) => o,
            None => 0,
        };
        let limit: i64 = match paging.limit {
            Some(l) => l,
            None => DEFAULT_LIMIT,
        };
        let len: usize = matching.len();
        let start: usize = if offset < 0 || offset as u64 >= len as u64 {
            len
        } else {
            offset as usize
        };
        let available: usize = len - start;
        let count: usize = if limit < 0 || limit as u64 >= available as u64 {
            available
        } else {
            limit as usize
        };
        let mut out: Vec<Event> = Vec::new();
        let mut k: usize = 0;
        while k < count
            invariant
                k <= count,
                len == matching@.len(),
                start + count <= len,
                views(out@) == views(matching@).subrange(start as int, start + k),
            decreases count - k,
        {
            let ghost before = out@;
            out.push(matching[start + k].clone());
            assert(views(out@) =~= views(before).push(views(matching@)[start + k]));
            assert(views(matching@).subrange(start as int, start + k + 1) =~= views(
                matching@,
            ).subrange(start as int, start + k).push(views(matching@)[start + k]));
            k = k + 1;
        }
        assert(views(out@) =~= page(views(matching@), paging));
        Ok(out)
    }

    /// Replaces the first stored event whose identifier is `event.id` by `event`;
    /// an error when there is none, and the store is then unchanged.
    pub fn update_event(&mut self, event: Event) -> (r: Result<(), String>)
        ensures
            match first_with_id(old(self)@, event.id) {
                Some(i) => r is Ok && final(self)@ == old(self)@.update(i, event@),
                None => r matches Err(msg) && msg@ == not_found_message() && final(self)@ == old(
                    self,
                )@,
            },
    {
        match self.position(event.id) {
            Some(i) => {
                let ghost v = event@;
                self.events.set(i, event);
                assert(self@ =~= old(self)@.update(i as int, v));
                Ok(())
            },
            None => {
                let msg = "Event not found".to_string();
                proof {
                    reveal_strlit("Event not found");
                }
                Err(msg)
            },
        }
    }

    /// Removes the first stored event with identifier `id`; an error when there
    /// is none, and the store is then unchanged.
    pub fn delete_event(&mut self, id: EventId) -> (r: Result<(), String>)
        ensures
            match first_with_id(old(self)@, id) {
                Some(i) => r is Ok && final(self)@ == old(self)@.remove(i),
                None => r matches Err(msg) && msg@ == not_found_message() && final(self)@ == old(
                    self,
                )@,
            },
    {
        match self.position(id) {
            Some(i) => {
                self.events.remove(i);
                assert(self@ =~= old(self)@.remove(i as int));
                Ok(())
            },
            None => {
                let msg = "Event not found".to_string();
                proof {
                    reveal_strlit("Event not found");
                }
                Err(msg)
            },
        }
    }

    /// The number of stored events.
    pub fn len(&self) -> (r: usize)
        ensures
            r == self@.len(),
    {
        self.events.len()
    }
}

} // verus!
