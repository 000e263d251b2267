//! The header multimap of a request or a response.
//!
//! A name may occur many times. The values of one name keep the order in which
//! they were appended; nothing is promised of the order between names.

use vstd::prelude::*;
use vstd::string::StringExecFns;
use vstd::utf8::encode_utf8;
use crate::error::Error;
use crate::grammar::{is_canonical_name_bytes, is_value_bytes};
use crate::header::{HeaderName, HeaderValue};

verus! {

/// `http::HeaderMap`, whose inside is known only through `header_map_pairs`.
#[verifier::external_type_specification]
#[verifier::external_body]
#[verifier::reject_recursive_types(T)]
pub struct ExHeaderMap<T>(http::HeaderMap<T>);

/// `http::header::MaxSizeReached`, carried through as it comes.
#[verifier::external_type_specification]
#[verifier::external_body]
pub struct ExMaxSizeReached(http::header::MaxSizeReached);

/// The pairs of name and value that a header map yields when it is walked,
/// in the order of the walk.
pub uninterp spec fn header_map_pairs(map: http::HeaderMap<HeaderValue>) -> Seq<
    (Seq<char>, Seq<u8>),
>;

/// The values that stand under one name, in their order.
pub open spec fn values_of(pairs: Seq<(Seq<char>, Seq<u8>)>, name: Seq<char>) -> Seq<Seq<u8>>
    decreases pairs.len(),
{
    if pairs.len() == 0 {
        Seq::empty()
    } else {
        let before = values_of(pairs.drop_last(), name);
        if pairs.last().0 == name {
            before.push(pairs.last().1)
        } else {
            before
        }
    }
}

/// `after` is `before` with one more value at the end of the values of `name`,
/// and every other name as it was.
pub open spec fn is_appended(
    before: Seq<(Seq<char>, Seq<u8>)>,
    after: Seq<(Seq<char>, Seq<u8>)>,
    name: Seq<char>,
    value: Seq<u8>,
) -> bool {
    &&& after.len() == before.len() + 1
    &&& values_of(after, name) == values_of(before, name).push(value)
    &&& forall|other: Seq<char>|
        other != name ==> #[trigger] values_of(after, other) == values_of(before, other)
}

/// Two lists of headers hold as many pairs, and under every name the same
/// values in the same order.
pub open spec fn same_headers(a: Seq<(Seq<char>, Seq<u8>)>, b: Seq<(Seq<char>, Seq<u8>)>) -> bool {
    &&& a.len() == b.len()
    &&& forall|name: Seq<char>| #[trigger] values_of(a, name) == values_of(b, name)
}

/// The views of a list of names and values.
pub open spec fn pairs_of(entries: Seq<(HeaderName, HeaderValue)>) -> Seq<(Seq<char>, Seq<u8>)> {
    Seq::new(entries.len(), |i: int| (entries[i].0@, entries[i].1@))
}

/// The views of a list of texts and bytes.
pub open spec fn plain_pairs(entries: Seq<(String, Vec<u8>)>) -> Seq<(Seq<char>, Seq<u8>)> {
    Seq::new(entries.len(), |i: int| (entries[i].0@, entries[i].1@))
}

/// Every name of the list is valid and in lower case, and every value is a
/// run of value bytes.
pub open spec fn all_well_formed(pairs: Seq<(Seq<char>, Seq<u8>)>) -> bool {
    forall|i: int|
        0 <= i < pairs.len() ==> is_canonical_name_bytes(encode_utf8((#[trigger] pairs[i]).0))
            && is_value_bytes(pairs[i].1)
}

/// The number of pairs below which a header map always has room for one
/// more. The map refuses only when its table, at its largest of 32768 slots,
/// would have to grow, and it grows no earlier than at a fifth of its slots
/// taken by names: that is 6554 names, and there are at least as many pairs
/// as names.
pub const SURE_ROOM: usize = 6554;

/// Calls `http::HeaderMap::default`, which makes an empty map.
#[verifier::external_body]
fn header_map_new() -> (map: http::HeaderMap<HeaderValue>)
    ensures
        header_map_pairs(map) == Seq::<(Seq<char>, Seq<u8>)>::empty(),
{
    http::HeaderMap::default()
}

/// Calls `http::HeaderMap::try_append` with the value and with the name that
/// `http::header::HeaderName::from_bytes` makes of the text. The contract
/// claims, for a text that is a valid name in lower case: where the map
/// refuses for want of room, it holds what it held; where it accepts, the
/// value has been put behind the other values of that name, the values of
/// every other name are as they were, and the result tells whether the name
/// was there before; and a map that holds fewer than `SURE_ROOM` pairs
/// accepts.
#[verifier::external_body]
fn header_map_try_append(
    map: &mut http::HeaderMap<HeaderValue>,
    name: &str,
    value: HeaderValue,
) -> (r: Result<bool, http::header::MaxSizeReached>)
    requires
        is_canonical_name_bytes(encode_utf8(name@)),
    ensures
        header_map_pairs(*old(map)).len() < SURE_ROOM ==> r is Ok,
        r is Err ==> header_map_pairs(*final(map)) == header_map_pairs(*old(map)),
        r matches Ok(existed) ==> is_appended(
            header_map_pairs(*old(map)),
            header_map_pairs(*final(map)),
            name@,
            value@,
        ) && existed == (values_of(header_map_pairs(*old(map)), name@).len() > 0),
{
    let key = http::header::HeaderName::from_bytes(name.as_bytes()).unwrap();
    map.try_append(key, value)
}

/// Calls `http::HeaderMap::iter` and copies out, in the order of the walk,
/// the text of each name and the bytes of each value that it yields.
#[verifier::external_body]
fn header_map_entries(map: &http::HeaderMap<HeaderValue>) -> (entries: Vec<(String, Vec<u8>)>)
    ensures
        plain_pairs(entries@) == header_map_pairs(*map),
{
    map.iter().map(|(k, v)| (k.as_str().to_string(), v.as_bytes().to_vec())).collect()
}

/// One more pair at the end of a list adds to the values of its name and to
/// no other.
pub proof fn lemma_values_of_push(
    pairs: Seq<(Seq<char>, Seq<u8>)>,
    pair: (Seq<char>, Seq<u8>),
    name: Seq<char>,
)
    ensures
        values_of(pairs.push(pair), name) == if pair.0 == name {
            values_of(pairs, name).push(pair.1)
        } else {
            values_of(pairs, name)
        },
{
    assert(pairs.push(pair).drop_last() =~= pairs);
}

/// Every value of the list stands under its name, at some place.
pub proof fn lemma_value_is_listed(pairs: Seq<(Seq<char>, Seq<u8>)>, i: int) -> (k: int)
    requires
        0 <= i < pairs.len(),
    ensures
        0 <= k < values_of(pairs, pairs[i].0).len(),
        values_of(pairs, pairs[i].0)[k] == pairs[i].1,
    decreases pairs.len(),
{
    let name = pairs[i].0;
    let before = pairs.drop_last();
    if i == pairs.len() - 1 {
        values_of(before, name).len() as int
    } else {
        assert(before[i] == pairs[i]);
        lemma_value_is_listed(before, i)
    }
}

/// Every value that stands under a name stands in the list, beside that
/// name.
pub proof fn lemma_listed_value_has_a_pair(
    pairs: Seq<(Seq<char>, Seq<u8>)>,
    name: Seq<char>,
    k: int,
) -> (i: int)
    requires
        0 <= k < values_of(pairs, name).len(),
    ensures
        0 <= i < pairs.len(),
        pairs[i] == (name, values_of(pairs, name)[k]),
    decreases pairs.len(),
{
    let before = pairs.drop_last();
    if k < values_of(before, name).len() {
        let i = lemma_listed_value_has_a_pair(before, name, k);
        assert(before[i] == pairs[i]);
        i
    } else {
        pairs.len() - 1
    }
}

/// A well-formed list that takes one more well-formed pair stays
/// well-formed.
proof fn lemma_appended_stays_well_formed(
    before: Seq<(Seq<char>, Seq<u8>)>,
    after: Seq<(Seq<char>, Seq<u8>)>,
    name: Seq<char>,
    value: Seq<u8>,
)
    requires
        all_well_formed(before),
        is_appended(before, after, name, value),
        is_canonical_name_bytes(encode_utf8(name)),
        is_value_bytes(value),
    ensures
        all_well_formed(after),
{
    assert forall|i: int| 0 <= i < after.len() implies is_canonical_name_bytes(
        encode_utf8((#[trigger] after[i]).0),
    ) && is_value_bytes(after[i].1) by {
        let under = after[i].0;
        let k = lemma_value_is_listed(after, i);
        if under == name && k == values_of(before, name).len() {
        } else {
            assert(values_of(after, under)[k] == values_of(before, under)[k]);
            let j = lemma_listed_value_has_a_pair(before, under, k);
            assert(before[j] == (under, after[i].1));
        }
    }
}

/// A header multimap.
#[derive(Debug)]
pub struct Headers {
    map: http::HeaderMap<HeaderValue>,
}

impl View for Headers {
    type V = Seq<(Seq<char>, Seq<u8>)>;

    closed spec fn view(&self) -> Seq<(Seq<char>, Seq<u8>)> {
        header_map_pairs(self.map)
    }
}

impl Headers {
    #[verifier::type_invariant]
    closed spec fn holds_well_formed_pairs(self) -> bool {
        all_well_formed(header_map_pairs(self.map))
    }

    /// An empty multimap.
    pub fn new() -> (headers: Headers)
        ensures
            headers@ == Seq::<(Seq<char>, Seq<u8>)>::empty(),
    {
        Headers { map: header_map_new() }
    }

    /// Puts a value behind the values that the name already has.
    ///
    /// A multimap of fewer than `SURE_ROOM` pairs always takes the value. On
    /// success the result tells whether the name was there before. A larger
    /// multimap may refuse for want of room: it then holds what it held, and
    /// the failure is `Http` with the text "max size reached".
    pub fn append(&mut self, name: &HeaderName, value: HeaderValue) -> (r: Result<bool, Error>)
        ensures
            old(self)@.len() < SURE_ROOM ==> r is Ok,
            r matches Ok(existed) ==> is_appended(old(self)@, final(self)@, name@, value@)
                && existed == (values_of(old(self)@, name@).len() > 0),
            r matches Err(e) ==> final(self)@ == old(self)@ && e is Http && e.message()
                == "max size reached"@,
    {
        proof {
            use_type_invariant(&*self);
            use_type_invariant(name);
            use_type_invariant(&value);
        }
        let ghost before = self@;
        let ghost added = value@;
        // The map is taken out while it is changed and put back once the new
        // pair is known to be well-formed.
        let mut map = header_map_new();
        std::mem::swap(&mut map, &mut self.map);
        let outcome = header_map_try_append(&mut map, name.as_str(), value);
        proof {
            if outcome is Ok {
                lemma_appended_stays_well_formed(before, header_map_pairs(map), name@, added);
            }
        }
        self.map = map;
        match outcome {
            Ok(existed) => Ok(existed),
            Err(_) => Err(Error::Http(String::from_str("max size reached"))),
        }
    }

    /// Every pair of name and value, the values of one name in their order.
    pub fn entries(&self) -> (entries: Vec<(HeaderName, HeaderValue)>)
        ensures
            pairs_of(entries@) == self@,
    {
        proof {
            use_type_invariant(self);
        }
        let plain = header_map_entries(&self.map);
        let ghost pairs = self@;
        let mut entries: Vec<(HeaderName, HeaderValue)> = Vec::new();
        let mut i: usize = 0;
        while i < plain.len()
            invariant
                i <= plain.len(),
                plain_pairs(plain@) == pairs,
                all_well_formed(pairs),
                entries@.len() == i,
                forall|j: int|
                    0 <= j < i ==> (#[trigger] entries@[j]).0@ == pairs[j].0 && entries@[j].1@
                        == pairs[j].1,
            decreases plain.len() - i,
        {
            assert(pairs[i as int] == (plain@[i as int].0@, plain@[i as int].1@));
            let name = HeaderName::from_canonical(plain[i].0.clone());
            let value = HeaderValue::from_valid(plain[i].1.clone());
            entries.push((name, value));
            i = i + 1;
        }
        assert(pairs_of(entries@) =~= pairs);
        entries
    }
}

} // verus!
