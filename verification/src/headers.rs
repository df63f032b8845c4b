//! Request headers, and the boolean flags that clients set through them.
use vstd::prelude::*;

verus! {

/// One header of a request: its (lower-case) name and its raw value.
#[derive(Debug)]
pub struct HeaderEntry {
    pub name: String,
    pub value: Vec<u8>,
}

impl View for HeaderEntry {
    type V = (Seq<char>, Seq<u8>);

    open spec fn view(&self) -> (Seq<char>, Seq<u8>) {
        (self.name@, self.value@)
    }
}

/// The views of a list of headers.
pub open spec fn headers_view(headers: Seq<HeaderEntry>) -> Seq<(Seq<char>, Seq<u8>)> {
    headers.map_values(|h: HeaderEntry| h@)
}

/// The value of the first header named `key`.
pub open spec fn first_value(headers: Seq<(Seq<char>, Seq<u8>)>, key: Seq<char>) -> Option<Seq<u8>>
    decreases headers.len(),
{
    if headers.len() == 0 {
        None
    } else if headers[0].0 == key {
        Some(headers[0].1)
    } else {
        first_value(headers.drop_first(), key)
    }
}

/// The headers without any header named `key`, in order.
pub open spec fn without_name(headers: Seq<(Seq<char>, Seq<u8>)>, key: Seq<char>) -> Seq<
    (Seq<char>, Seq<u8>),
>
    decreases headers.len(),
{
    if headers.len() == 0 {
        headers
    } else if headers[0].0 == key {
        without_name(headers.drop_first(), key)
    } else {
        seq![headers[0]] + without_name(headers.drop_first(), key)
    }
}

/// The headers with `key` set to `value`: every earlier value of `key` is
/// replaced by this one.
pub open spec fn with_header(headers: Seq<(Seq<char>, Seq<u8>)>, key: Seq<char>, value: Seq<u8>) -> Seq<
    (Seq<char>, Seq<u8>),
> {
    seq![(key, value)] + without_name(headers, key)
}

/// Once `key` is set, its value is the one set, and every other header reads
/// as before.
pub proof fn lemma_with_header(
    headers: Seq<(Seq<char>, Seq<u8>)>,
    key: Seq<char>,
    value: Seq<u8>,
    other: Seq<char>,
)
    ensures
        first_value(with_header(headers, key, value), key) == Some(value),
        other != key ==> first_value(with_header(headers, key, value), other) == first_value(
            headers,
            other,
        ),
{
    let h = with_header(headers, key, value);
    assert(h[0] == (key, value));
    assert(h.drop_first() =~= without_name(headers, key));
    if other != key {
        lemma_without_name(headers, key, other);
    }
}

/// Dropping the headers named `key` leaves every other header reading as before.
pub proof fn lemma_without_name(headers: Seq<(Seq<char>, Seq<u8>)>, key: Seq<char>, other: Seq<char>)
    requires
        other != key,
    ensures
        first_value(without_name(headers, key), other) == first_value(headers, other),
    decreases headers.len(),
{
    if headers.len() > 0 {
        lemma_without_name(headers.drop_first(), key, other);
        if headers[0].0 != key {
            let w = without_name(headers, key);
            assert(w[0] == headers[0]);
            assert(w.drop_first() =~= without_name(headers.drop_first(), key));
        }
    }
}

/// The value `true`, as ASCII codes.
pub open spec fn true_bytes() -> Seq<u8> {
    seq![116u8, 114u8, 117u8, 101u8]
}

/// A header holding `true` sets its flag.
pub proof fn lemma_true_sets_a_flag()
    ensures
        flag_set(Some(true_bytes())),
{
    let t = true_bytes();
    assert(trim_start(t) == t);
    assert(trim_end(t) == t);
    assert(t.map_values(|b: u8| ascii_lower(b)) =~= t);
}

/// A byte that a header value may hold and still be read as text: visible
/// ASCII or a tab.
pub open spec fn is_visible_ascii(b: u8) -> bool {
    (32 <= b && b < 127) || b == 9
}

/// A byte of white space that trimming removes from text made of visible ASCII.
pub open spec fn is_blank(b: u8) -> bool {
    b == 32 || b == 9
}

/// The bytes without their leading blanks.
pub open spec fn trim_start(s: Seq<u8>) -> Seq<u8>
    decreases s.len(),
{
    if s.len() > 0 && is_blank(s[0]) {
        trim_start(s.drop_first())
    } else {
        s
    }
}

/// The bytes without their trailing blanks.
pub open spec fn trim_end(s: Seq<u8>) -> Seq<u8>
    decreases s.len(),
{
    if s.len() > 0 && is_blank(s.last()) {
        trim_end(s.drop_last())
    } else {
        s
    }
}

/// An ASCII byte in lower case.
pub open spec fn ascii_lower(b: u8) -> u8 {
    if 65 <= b && b <= 90 {
        (b + 32) as u8
    } else {
        b
    }
}

/// The text, trimmed and in lower case, is one of `1`, `true`, `yes`, `on`
/// (as ASCII codes).
pub open spec fn is_truthy(s: Seq<u8>) -> bool {
    let t = trim_end(trim_start(s)).map_values(|b: u8| ascii_lower(b));
    ||| t == seq![49u8]
    ||| t == seq![116u8, 114u8, 117u8, 101u8]
    ||| t == seq![121u8, 101u8, 115u8]
    ||| t == seq![111u8, 110u8]
}

/// A flag is set when the header is present, its value is text, and that text
/// is truthy.
pub open spec fn flag_set(value: Option<Seq<u8>>) -> bool {
    match value {
        Some(v) => (forall|i: int| 0 <= i < v.len() ==> is_visible_ascii(#[trigger] v[i]))
            && is_truthy(v),
        None => false,
    }
}

/// The position of the first header named `key`.
fn find_header(headers: &Vec<HeaderEntry>, key: &String) -> (r: Option<usize>)
    ensures
        match r {
            Some(i) => i < headers@.len() && first_value(headers_view(headers@), key@) == Some(
                headers@[i as int].value@,
            ),
            None => first_value(headers_view(headers@), key@) is None,
        },
{
    let ghost all = headers_view(headers@);
    let mut i: usize = 0;
    assert(all.skip(0) =~= all);
    while i < headers.len()
        invariant
            i <= headers@.len(),
            all == headers_view(headers@),
            first_value(all, key@) == first_value(all.skip(i as int), key@),
        decreases headers@.len() - i,
    {
        let ghost rest = all.skip(i as int);
        assert(rest[0] == headers@[i as int]@);
        assert(rest.drop_first() =~= all.skip(i + 1));
        if headers[i].name == *key {
            return Some(i);
        }
        i = i + 1;
    }
    assert(all.skip(i as int).len() == 0);
    None
}

/// Every byte of the value is visible ASCII or a tab.
fn all_visible(v: &Vec<u8>) -> (r: bool)
    ensures
        r == forall|i: int| 0 <= i < v@.len() ==> is_visible_ascii(#[trigger] v@[i]),
{
    let mut i: usize = 0;
    while i < v.len()
        invariant
            i <= v@.len(),
            forall|j: int| 0 <= j < i ==> is_visible_ascii(#[trigger] v@[j]),
        decreases v@.len() - i,
    {
        let b: u8 = v[i];
        if !((32 <= b && b < 127) || b == 9) {
            assert(!is_visible_ascii(v@[i as int]));
            return false;
        }
        i = i + 1;
    }
    true
}

/// The bounds of the value once its leading and trailing blanks are trimmed.
fn trimmed_bounds(v: &Vec<u8>) -> (r: (usize, usize))
    ensures
        r.0 <= r.1 <= v@.len(),
        trim_end(trim_start(v@)) == v@.subrange(r.0 as int, r.1 as int),
{
    let len: usize = v.len();
    let mut start: usize = 0;
    assert(v@.subrange(0, len as int) =~= v@);
    while start < len && (v[start] == 32 || v[start] == 9)
        invariant
            start <= len == v@.len(),
            trim_start(v@) == trim_start(v@.subrange(start as int, len as int)),
        decreases len - start,
    {
        assert(v@.subrange(start as int, len as int).drop_first() =~= v@.subrange(
            start + 1,
            len as int,
        ));
        start = start + 1;
    }
    if start == len {
        assert(v@.subrange(start as int, len as int) =~= Seq::<u8>::empty());
    }
    let mut end: usize = len;
    while end > start && (v[end - 1] == 32 || v[end - 1] == 9)
        invariant
            start <= end <= len == v@.len(),
            trim_start(v@) == v@.subrange(start as int, len as int),
            trim_end(trim_start(v@)) == trim_end(v@.subrange(start as int, end as int)),
        decreases end - start,
    {
        assert(v@.subrange(start as int, end as int).drop_last() =~= v@.subrange(
            start as int,
            end - 1,
        ));
        end = end - 1;
    }
    (start, end)
}

/// The bytes `v[from..to]`, in lower case, are `word`.
fn lower_equals(v: &Vec<u8>, from: usize, to: usize, word: &Vec<u8>) -> (r: bool)
    requires
        from <= to <= v@.len(),
    ensures
        r == (v@.subrange(from as int, to as int).map_values(|b: u8| ascii_lower(b)) == word@),
{
    let ghost lowered = v@.subrange(from as int, to as int).map_values(|b: u8| ascii_lower(b));
    if to - from != word.len() {
        return false;
    }
    let mut k: usize = 0;
    while k < word.len()
        invariant
            from <= to <= v@.len(),
            to - from == word@.len(),
            k <= word@.len(),
            lowered == v@.subrange(from as int, to as int).map_values(|b: u8| ascii_lower(b)),
            forall|j: int| 0 <= j < k ==> lowered[j] == #[trigger] word@[j],
        decreases word@.len() - k,
    {
        let b: u8 = v[from + k];
        let l: u8 = if 65 <= b && b <= 90 {
            b + 32
        } else {
            b
        };
        assert(lowered[k as int] == l);
        if l != word[k] {
            return false;
        }
        k = k + 1;
    }
    assert(lowered =~= word@);
    true
}

/// Whether the flag header `key` is set: the first header named `key` holds
/// visible ASCII text which, trimmed and in lower case, is `1`, `true`, `yes`
/// or `on`.
///
/// Names are compared exactly; HTTP header names are held in lower case, and
/// so are the keys looked up here.
pub fn header_flag(headers: &Vec<HeaderEntry>, key: &str) -> (r: bool)
    ensures
        r == flag_set(first_value(headers_view(headers@), key@)),
{
    let name = key.to_string();
    match find_header(headers, &name) {
        None => false,
        Some(i) => {
            let v = &headers[i].value;
            if !all_visible(v) {
                return false;
            }
            let (from, to) = trimmed_bounds(v);
            let one: Vec<u8> = vec![49u8];
            let yes_true: Vec<u8> = vec![116u8, 114u8, 117u8, 101u8];
            let yes: Vec<u8> = vec![121u8, 101u8, 115u8];
            let on: Vec<u8> = vec![111u8, 110u8];
            assert(one@ =~= seq![49u8]);
            assert(yes_true@ =~= seq![116u8, 114u8, 117u8, 101u8]);
            assert(yes@ =~= seq![121u8, 101u8, 115u8]);
            assert(on@ =~= seq![111u8, 110u8]);
            lower_equals(v, from, to, &one) || lower_equals(v, from, to, &yes_true)
                || lower_equals(v, from, to, &yes) || lower_equals(v, from, to, &on)
        },
    }
}

} // verus!
