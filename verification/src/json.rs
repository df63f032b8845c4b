//! A JSON document model for event headers and bodies.
//!
//! Webhook events carry arbitrary JSON. The library holds such documents as
//! [`JsonValue`]; numbers are kept in their textual form, so that nothing is lost
//! and no floating-point value has to be held. An object is a list of entries whose
//! keys are pairwise distinct; its mathematical view is a map from keys to values.
use vstd::prelude::*;

verus! {

/// The mathematical view of a JSON document.
pub enum Json {
    Null,
    Bool(bool),
    Number(Seq<char>),
    Str(Seq<char>),
    Array(Seq<Json>),
    Object(Map<Seq<char>, Json>),
}

/// A JSON document.
#[derive(Debug, PartialEq)]
pub enum JsonValue {
    Null,
    Bool(bool),
    /// A number, in the text form in which it appears in a document.
    Number(String),
    String(String),
    Array(Vec<JsonValue>),
    /// An object, as its entries; keys are distinct (see [`JsonValue::well_formed`]).
    Object(Vec<(String, JsonValue)>),
}

/// The map that a list of object entries stands for: a later entry for a key
/// overrides an earlier one.
pub open spec fn entries_map(entries: Seq<(String, JsonValue)>) -> Map<Seq<char>, Json>
    decreases entries,
{
    if entries.len() == 0 {
        Map::empty()
    } else {
        let last = entries.last();
        proof {
            assert(decreases_to!(entries => entries[entries.len() - 1]));
        }
        entries_map(entries.drop_last()).insert(last.0@, json_view(last.1))
    }
}

/// The views of the items of an array, in order.
pub open spec fn items_view(items: Seq<JsonValue>) -> Seq<Json>
    decreases items,
{
    if items.len() == 0 {
        Seq::empty()
    } else {
        items_view(items.drop_last()).push(json_view(items.last()))
    }
}

/// The view of a document.
pub open spec fn json_view(v: JsonValue) -> Json
    decreases v,
{
    match v {
        JsonValue::Null => Json::Null,
        JsonValue::Bool(b) => Json::Bool(b),
        JsonValue::Number(n) => Json::Number(n@),
        JsonValue::String(s) => Json::Str(s@),
        JsonValue::Array(items) => {
            proof {
                assert(decreases_to!(items => items@));
            }
            Json::Array(items_view(items@))
        },
        JsonValue::Object(entries) => {
            proof {
                assert(decreases_to!(entries => entries@));
            }
            Json::Object(entries_map(entries@))
        },
    }
}

impl View for JsonValue {
    type V = Json;

    open spec fn view(&self) -> Json {
        json_view(*self)
    }
}

/// The keys of the entries are pairwise distinct.
pub open spec fn keys_distinct(entries: Seq<(String, JsonValue)>) -> bool {
    forall|i: int, j: int|
        0 <= i < entries.len() && 0 <= j < entries.len() && i != j ==> #[trigger] entries[i].0@
            != #[trigger] entries[j].0@
}

/// The entries, in order, whose key is not `key`.
pub open spec fn drop_key(entries: Seq<(String, JsonValue)>, key: Seq<char>) -> Seq<(String, JsonValue)>
    decreases entries.len(),
{
    if entries.len() == 0 {
        Seq::empty()
    } else {
        let rest = drop_key(entries.drop_last(), key);
        if entries.last().0@ == key {
            rest
        } else {
            rest.push(entries.last())
        }
    }
}

/// The document is not an object, or it is one whose keys are distinct.
pub open spec fn json_keys_distinct(v: JsonValue) -> bool {
    match v {
        JsonValue::Object(entries) => keys_distinct(entries@),
        _ => true,
    }
}

/// Dropping the entries of a key removes exactly that key from the map.
pub proof fn lemma_drop_key_map(entries: Seq<(String, JsonValue)>, key: Seq<char>)
    ensures
        entries_map(drop_key(entries, key)) == entries_map(entries).remove(key),
    decreases entries.len(),
{
    if entries.len() > 0 {
        lemma_drop_key_map(entries.drop_last(), key);
        let last = entries.last();
        if last.0@ == key {
            assert(entries_map(drop_key(entries, key)) =~= entries_map(entries).remove(key));
        } else {
            let rest = drop_key(entries.drop_last(), key);
            assert(rest.push(last).drop_last() =~= rest);
            assert(entries_map(drop_key(entries, key)) =~= entries_map(entries).remove(key));
        }
    } else {
        assert(entries_map(drop_key(entries, key)) =~= entries_map(entries).remove(key));
    }
}

/// Every entry kept by `drop_key` is an entry of the input, and none has the key.
pub proof fn lemma_drop_key_entries(entries: Seq<(String, JsonValue)>, key: Seq<char>)
    ensures
        forall|i: int|
            0 <= i < drop_key(entries, key).len() ==> (#[trigger] drop_key(entries, key)[i]).0@
                != key && entries.contains(drop_key(entries, key)[i]),
        keys_distinct(entries) ==> keys_distinct(drop_key(entries, key)),
    decreases entries.len(),
{
    if entries.len() > 0 {
        let prefix = entries.drop_last();
        lemma_drop_key_entries(prefix, key);
        let rest = drop_key(prefix, key);
        assert forall|i: int| 0 <= i < rest.len() implies entries.contains(#[trigger] rest[i]) by {
            assert(prefix.contains(rest[i]));
            let j: int = choose|j: int| 0 <= j < prefix.len() && prefix[j] == rest[i];
            assert(entries[j] == rest[i]);
        }
        if keys_distinct(entries) {
            assert(keys_distinct(prefix));
            if entries.last().0@ != key {
                let d = drop_key(entries, key);
                assert forall|i: int, j: int|
                    0 <= i < d.len() && 0 <= j < d.len() && i != j implies #[trigger] d[i].0@
                    != #[trigger] d[j].0@ by {
                    if i < rest.len() && j < rest.len() {
                    } else if i < rest.len() {
                        assert(prefix.contains(rest[i]));
                        let a: int = choose|a: int| 0 <= a < prefix.len() && prefix[a] == rest[i];
                        assert(entries[a] == d[i]);
                        assert(d[j] == entries[entries.len() - 1]);
                    } else {
                        assert(prefix.contains(rest[j]));
                        let a: int = choose|a: int| 0 <= a < prefix.len() && prefix[a] == rest[j];
                        assert(entries[a] == d[j]);
                        assert(d[i] == entries[entries.len() - 1]);
                    }
                }
            }
        }
    }
}

/// Sets the entry of `key` to `value`, as an insertion into a JSON object does:
/// the map that the entries stand for gains `key` with `value`, and the keys stay
/// distinct.
pub fn object_insert(entries: Vec<(String, JsonValue)>, key: String, value: JsonValue) -> (r: Vec<
    (String, JsonValue),
>)
    ensures
        entries_map(r@) == entries_map(entries@).insert(key@, value@),
        keys_distinct(entries@) ==> keys_distinct(r@),
{
    let ghost all = entries@;
    let mut kept: Vec<(String, JsonValue)> = Vec::new();
    for e in it: entries.into_iter()
        invariant
            it.seq() == all,
            kept@ == drop_key(all.take(it.index()), key@),
    {
        let ghost before = kept@;
        assert(all.take(it.index() + 1).drop_last() =~= all.take(it.index()));
        if e.0 == key {
        } else {
            kept.push(e);
            assert(kept@ =~= before.push(all[it.index()]));
        }
    }
    assert(all.take(all.len() as int) =~= all);
    proof {
        lemma_drop_key_map(all, key@);
        lemma_drop_key_entries(all, key@);
    }
    let ghost dropped = kept@;
    kept.push((key, value));
    proof {
        assert(kept@.drop_last() =~= dropped);
        assert(entries_map(kept@) =~= entries_map(all).insert(key@, value@));
        if keys_distinct(all) {
            assert forall|i: int, j: int|
                0 <= i < kept@.len() && 0 <= j < kept@.len() && i != j implies #[trigger] kept@[i].0@
                != #[trigger] kept@[j].0@ by {
                if i < dropped.len() && j < dropped.len() {
                    assert(dropped[i] == kept@[i]);
                    assert(dropped[j] == kept@[j]);
                } else if i < dropped.len() {
                    assert(dropped[i] == kept@[i]);
                } else {
                    assert(dropped[j] == kept@[j]);
                }
            }
        }
    }
    kept
}

/// The entry at `i` is the last one with key `key`.
pub open spec fn is_last_with_key(entries: Seq<(String, JsonValue)>, key: Seq<char>, i: int) -> bool {
    &&& 0 <= i < entries.len()
    &&& entries[i].0@ == key
    &&& forall|j: int| i < j < entries.len() ==> #[trigger] entries[j].0@ != key
}

/// An object's map holds a key exactly when some entry has it, and then the
/// value of the last such entry.
pub proof fn lemma_entries_map_lookup(entries: Seq<(String, JsonValue)>, key: Seq<char>)
    ensures
        entries_map(entries).contains_key(key) <==> exists|i: int|
            0 <= i < entries.len() && #[trigger] entries[i].0@ == key,
        forall|i: int|
            #[trigger] is_last_with_key(entries, key, i) ==> entries_map(entries)[key] == json_view(
                entries[i].1,
            ),
    decreases entries.len(),
{
    if entries.len() > 0 {
        let prefix = entries.drop_last();
        lemma_entries_map_lookup(prefix, key);
        let n = entries.len() - 1;
        if entries[n].0@ != key {
            if exists|i: int| 0 <= i < entries.len() && #[trigger] entries[i].0@ == key {
                let i: int = choose|i: int| 0 <= i < entries.len() && #[trigger] entries[i].0@ == key;
                assert(prefix[i].0@ == key);
            }
            assert forall|i: int| #[trigger] is_last_with_key(entries, key, i) implies entries_map(
                entries,
            )[key] == json_view(entries[i].1) by {
                assert(prefix[i] == entries[i]);
                assert forall|j: int| i < j < prefix.len() implies #[trigger] prefix[j].0@ != key by {
                    assert(prefix[j] == entries[j]);
                }
                assert(is_last_with_key(prefix, key, i));
            }
        }
    }
}

/// The views of an array's items are, one by one, the views of its items.
pub proof fn lemma_items_view_index(items: Seq<JsonValue>)
    ensures
        items_view(items).len() == items.len(),
        forall|i: int| 0 <= i < items.len() ==> #[trigger] items_view(items)[i] == json_view(items[i]),
    decreases items.len(),
{
    if items.len() > 0 {
        lemma_items_view_index(items.drop_last());
        assert forall|i: int| 0 <= i < items.len() implies #[trigger] items_view(items)[i] == json_view(
            items[i],
        ) by {
            if i < items.len() - 1 {
                assert(items.drop_last()[i] == items[i]);
            }
        }
    }
}

/// The value of `key` in the object `entries`, when it holds the key.
pub fn object_get<'a>(entries: &'a Vec<(String, JsonValue)>, key: &str) -> (r: Option<&'a JsonValue>)
    ensures
        match r {
            Some(v) => entries_map(entries@).contains_key(key@) && entries_map(entries@)[key@]
                == v@,
            None => !entries_map(entries@).contains_key(key@),
        },
{
    let wanted = key.to_string();
    proof {
        lemma_entries_map_lookup(entries@, key@);
    }
    let mut i: usize = entries.len();
    while i > 0
        invariant
            i <= entries@.len(),
            wanted@ == key@,
            forall|j: int| i <= j < entries@.len() ==> #[trigger] entries@[j].0@ != key@,
        decreases i,
    {
        i = i - 1;
        if entries[i].0 == wanted {
            proof {
                lemma_entries_map_lookup(entries@, key@);
                assert(entries@[i as int].0@ == key@);
                assert(is_last_with_key(entries@, key@, i as int));
            }
            return Some(&entries[i].1);
        }
    }
    None
}

impl JsonValue {
    /// A copy of the document.
    pub fn duplicate(&self) -> (r: JsonValue)
        ensures
            r@ == self@,
        decreases self,
    {
        match self {
            JsonValue::Null => JsonValue::Null,
            JsonValue::Bool(b) => JsonValue::Bool(*b),
            JsonValue::Number(n) => JsonValue::Number(n.clone()),
            JsonValue::String(s) => JsonValue::String(s.clone()),
            JsonValue::Array(items) => {
                let mut out: Vec<JsonValue> = Vec::new();
                let mut i: usize = 0;
                while i < items.len()
                    invariant
                        *self == JsonValue::Array(*items),
                        i <= items@.len(),
                        out@.len() == i,
                        items_view(out@) == items_view(items@.take(i as int)),
                    decreases items@.len() - i,
                {
                    proof {
                        assert(decreases_to!(*self => self->Array_0));
                        assert(decreases_to!(*items => items@));
                        assert(decreases_to!(items@ => items@[i as int]));
                        assert(decreases_to!(*self => items@[i as int]));
                    }
                    let c = items[i].duplicate();
                    let ghost prev = out@;
                    out.push(c);
                    assert(items@.take(i + 1).drop_last() =~= items@.take(i as int));
                    assert(out@.drop_last() =~= prev);
                    i = i + 1;
                }
                assert(items@.take(items@.len() as int) =~= items@);
                JsonValue::Array(out)
            },
            JsonValue::Object(entries) => {
                let mut out: Vec<(String, JsonValue)> = Vec::new();
                let mut i: usize = 0;
                while i < entries.len()
                    invariant
                        *self == JsonValue::Object(*entries),
                        i <= entries@.len(),
                        out@.len() == i,
                        entries_map(out@) == entries_map(entries@.take(i as int)),
                    decreases entries@.len() - i,
                {
                    proof {
                        assert(decreases_to!(*self => self->Object_0));
                        assert(decreases_to!(*entries => entries@));
                        assert(decreases_to!(entries@ => entries@[i as int]));
                        assert(decreases_to!(entries@[i as int] => entries@[i as int].1));
                        assert(decreases_to!(*self => entries@[i as int].1));
                    }
                    let k = entries[i].0.clone();
                    let v = entries[i].1.duplicate();
                    let ghost prev = out@;
                    out.push((k, v));
                    assert(entries@.take(i + 1).drop_last() =~= entries@.take(i as int));
                    assert(out@.drop_last() =~= prev);
                    i = i + 1;
                }
                assert(entries@.take(entries@.len() as int) =~= entries@);
                JsonValue::Object(out)
            },
        }
    }
}

impl Clone for JsonValue {
    fn clone(&self) -> (r: JsonValue)
        ensures
            r@ == self@,
    {
        self.duplicate()
    }
}

} // verus!
