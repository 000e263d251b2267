//! The way of headers from the host into a standard request and back to the
//! host.

use vstd::prelude::*;
use vstd::utf8::{decode_utf8, encode_utf8};
use crate::grammar::{canonical_name, is_name_bytes, is_visible_bytes};
use crate::headers::{
    lemma_listed_value_has_a_pair, lemma_value_is_listed, lemma_values_of_push, same_headers,
    values_of,
};
use crate::request::{accepted_pairs, entry_accepted, entry_pair, HeaderEntry};
use crate::response::{all_visible, host_headers};
use crate::text::{lemma_canonical_name_is_lower_text, lower_text};

verus! {

/// The texts that stand under one name in the host's headers, in their
/// order.
pub open spec fn texts_of(pairs: Seq<(Seq<char>, Seq<char>)>, name: Seq<char>) -> Seq<Seq<char>>
    decreases pairs.len(),
{
    if pairs.len() == 0 {
        Seq::empty()
    } else {
        let before = texts_of(pairs.drop_last(), name);
        if pairs.last().0 == name {
            before.push(pairs.last().1)
        } else {
            before
        }
    }
}

/// An entry that makes the whole way: it is accepted, and its value is
/// visible text.
pub open spec fn entry_round_trips(entry: HeaderEntry) -> bool {
    entry_accepted(entry) && is_visible_bytes(encode_utf8(entry.value->0@))
}

/// The entries as pairs of texts: each name in lower case, each value as it
/// is.
pub open spec fn entry_texts(entries: Seq<HeaderEntry>) -> Seq<(Seq<char>, Seq<char>)> {
    Seq::new(entries.len(), |i: int| (lower_text(entries[i].key->0@), entries[i].value->0@))
}

/// Each of the values as text.
pub open spec fn decoded(values: Seq<Seq<u8>>) -> Seq<Seq<char>> {
    Seq::new(values.len(), |i: int| decode_utf8(values[i]))
}

/// A name that is valid and holds no upper-case letter is stored as it is.
pub proof fn lemma_lower_case_name_is_kept(text: Seq<char>)
    requires
        is_name_bytes(encode_utf8(text)),
        forall|i: int| 0 <= i < text.len() ==> !('A' <= #[trigger] text[i] <= 'Z'),
    ensures
        canonical_name(text) == text,
{
    lemma_canonical_name_is_lower_text(text);
    assert(lower_text(text) =~= text);
}

/// The texts under a name in the headers that the host is given are the
/// values under that name, each as text.
proof fn lemma_texts_of_host_headers(pairs: Seq<(Seq<char>, Seq<u8>)>, name: Seq<char>)
    ensures
        texts_of(host_headers(pairs), name) == decoded(values_of(pairs, name)),
    decreases pairs.len(),
{
    if pairs.len() == 0 {
        assert(decoded(values_of(pairs, name)) =~= Seq::empty());
    } else {
        let before = pairs.drop_last();
        lemma_texts_of_host_headers(before, name);
        assert(host_headers(pairs).drop_last() =~= host_headers(before));
        assert(host_headers(pairs).last() == (pairs.last().0, decode_utf8(pairs.last().1)));
        if pairs.last().0 == name {
            assert(decoded(values_of(before, name).push(pairs.last().1)) =~= decoded(
                values_of(before, name),
            ).push(decode_utf8(pairs.last().1)));
        }
    }
}

/// Of entries that all make the whole way, each is accepted as a pair whose
/// value is visible, and under every name the values, as text, are the
/// entries' own.
proof fn lemma_accepted_pairs_of_good_entries(entries: Seq<HeaderEntry>, name: Seq<char>)
    requires
        forall|i: int| 0 <= i < entries.len() ==> entry_round_trips(#[trigger] entries[i]),
    ensures
        accepted_pairs(entries).len() == entries.len(),
        all_visible(accepted_pairs(entries)),
        decoded(values_of(accepted_pairs(entries), name)) == texts_of(entry_texts(entries), name),
    decreases entries.len(),
{
    if entries.len() == 0 {
        assert(decoded(values_of(accepted_pairs(entries), name)) =~= Seq::empty());
    } else {
        let before = entries.drop_last();
        let last = entries.last();
        assert forall|i: int| 0 <= i < before.len() implies entry_round_trips(
            #[trigger] before[i],
        ) by {
            assert(before[i] == entries[i]);
        }
        lemma_accepted_pairs_of_good_entries(before, name);
        assert(entry_round_trips(entries[entries.len() - 1]));
        let pair = entry_pair(last);
        let held = accepted_pairs(before);
        assert(accepted_pairs(entries) == held.push(pair));
        assert forall|i: int| 0 <= i < held.push(pair).len() implies is_visible_bytes(
            #[trigger] held.push(pair)[i].1,
        ) by {
            if i < held.len() {
                assert(held.push(pair)[i] == held[i]);
            }
        }
        lemma_values_of_push(held, pair, name);
        vstd::utf8::encode_utf8_decode_utf8(last.value->0@);
        assert(entry_texts(entries).drop_last() =~= entry_texts(before));
        lemma_canonical_name_is_lower_text(last.key->0@);
        assert(entry_texts(entries).last() == (canonical_name(last.key->0@), last.value->0@));
        if pair.0 == name {
            assert(decoded(values_of(held, name).push(pair.1)) =~= decoded(
                values_of(held, name),
            ).push(decode_utf8(pair.1)));
        }
    }
}

/// Headers that come from the host and go back to it keep, under every
/// name, their values and the order of those values.
///
/// `entries` is what the host hands in, every entry with a valid name and a
/// value of visible text. `stored` is what a request materialised from them
/// holds. The headers that the host is given for `stored` then hold as many
/// pairs as there were entries, and under each name, read in lower case, the
/// values of the entries of that name, unchanged and in their order. No
/// value is refused on the way out.
pub proof fn lemma_headers_round_trip(
    entries: Seq<HeaderEntry>,
    stored: Seq<(Seq<char>, Seq<u8>)>,
    name: Seq<char>,
)
    requires
        forall|i: int| 0 <= i < entries.len() ==> entry_round_trips(#[trigger] entries[i]),
        same_headers(stored, accepted_pairs(entries)),
    ensures
        all_visible(stored),
        host_headers(stored).len() == entries.len(),
        texts_of(host_headers(stored), name) == texts_of(entry_texts(entries), name),
{
    let accepted = accepted_pairs(entries);
    lemma_accepted_pairs_of_good_entries(entries, name);
    assert forall|i: int| 0 <= i < stored.len() implies is_visible_bytes(
        #[trigger] stored[i].1,
    ) by {
        let under = stored[i].0;
        let k = lemma_value_is_listed(stored, i);
        assert(values_of(stored, under) == values_of(accepted, under));
        let j = lemma_listed_value_has_a_pair(accepted, under, k);
        assert(is_visible_bytes(accepted[j].1));
    }
    lemma_texts_of_host_headers(stored, name);
    assert(values_of(stored, name) == values_of(accepted, name));
}

} // verus!
