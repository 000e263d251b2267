//! Materialising a host request as a standard request.

use vstd::prelude::*;
use vstd::string::StringSliceAdditionalSpecFns;
use vstd::utf8::encode_utf8;
use crate::error::{Error, HostFault};
use crate::grammar::{canonical_name, is_method_bytes, is_name_bytes, is_value_bytes};
use crate::header::{parse_header_name, parse_header_value};
use crate::headers::{lemma_values_of_push, same_headers, values_of, Headers, SURE_ROOM};
use crate::method::{parse_method, Method};

verus! {

/// One entry of the host's header view. The host may fail to yield either
/// half as text: that half is then missing.
#[derive(Debug, Clone, PartialEq, Eq)]
pub struct HeaderEntry {
    pub key: Option<String>,
    pub value: Option<String>,
}

/// A host request after its one whole-body read: the texts of its method and
/// URL, its header entries, and the body or the fault that the read ended in.
#[derive(Debug, PartialEq, Eq)]
pub struct HostRequest {
    pub method: String,
    pub url: String,
    pub headers: Vec<HeaderEntry>,
    pub body: Result<Vec<u8>, HostFault>,
}

/// A standard request with its body fully resident. It cannot be changed once
/// it is made.
#[derive(Debug)]
pub struct StandardRequest {
    method: Method,
    uri: String,
    headers: Headers,
    body: Vec<u8>,
}

/// What a standard request holds.
pub struct StandardRequestView {
    pub method: Method,
    pub uri: Seq<char>,
    pub headers: Seq<(Seq<char>, Seq<u8>)>,
    pub body: Seq<u8>,
}

impl View for StandardRequest {
    type V = StandardRequestView;

    closed spec fn view(&self) -> StandardRequestView {
        StandardRequestView {
            method: self.method,
            uri: self.uri@,
            headers: self.headers@,
            body: self.body@,
        }
    }
}

/// An entry is taken over when both halves are there, the key is a header
/// name and the value is a header value.
pub open spec fn entry_accepted(entry: HeaderEntry) -> bool {
    &&& entry.key matches Some(key)
    &&& entry.value matches Some(value)
    &&& is_name_bytes(encode_utf8(key@))
    &&& is_value_bytes(encode_utf8(value@))
}

/// What an accepted entry is stored as: its name in lower case, and the bytes
/// of its value.
pub open spec fn entry_pair(entry: HeaderEntry) -> (Seq<char>, Seq<u8>)
    recommends
        entry_accepted(entry),
{
    (canonical_name(entry.key->0@), encode_utf8(entry.value->0@))
}

/// The accepted entries of a header view, in the order of the view.
pub open spec fn accepted_pairs(entries: Seq<HeaderEntry>) -> Seq<(Seq<char>, Seq<u8>)>
    decreases entries.len(),
{
    if entries.len() == 0 {
        Seq::empty()
    } else {
        let before = accepted_pairs(entries.drop_last());
        if entry_accepted(entries.last()) {
            before.push(entry_pair(entries.last()))
        } else {
            before
        }
    }
}

/// Why a request with the given URI text cannot be built, in the words of the
/// `http` crate; `None` where it can.
pub uninterp spec fn uri_refusal(text: Seq<char>) -> Option<Seq<char>>;

/// Calls `http::request::Builder::uri` with the text and `body` for the
/// outcome, and takes the text of the error where there is one. The contract
/// claims no more than that the outcome goes by the text alone: `uri_refusal`
/// is its name.
#[verifier::external_body]
fn uri_refusal_of(text: &str) -> (r: Option<String>)
    ensures
        r is Some <==> uri_refusal(text@) is Some,
        r matches Some(why) ==> uri_refusal(text@) == Some(why@),
{
    http::Request::builder().uri(text).body(()).err().map(|e| e.to_string())
}

/// Takes over the entries of a header view.
///
/// Entries with a missing half, a malformed name or a malformed value are
/// passed over, and the accepted ones are kept, under each name in their
/// order. A view with no more than `SURE_ROOM` accepted entries is always
/// taken over. Beyond that the map may refuse an entry for want of room,
/// which ends the work; nothing else does.
pub fn collect_headers(entries: &Vec<HeaderEntry>) -> (r: Result<Headers, Error>)
    ensures
        accepted_pairs(entries@).len() <= SURE_ROOM ==> r is Ok,
        entries@.len() <= SURE_ROOM ==> r is Ok,
        r matches Ok(headers) ==> same_headers(headers@, accepted_pairs(entries@)),
        r matches Err(e) ==> e is Http && e.message() == "max size reached"@,
{
    let mut headers = Headers::new();
    let mut i: usize = 0;
    while i < entries.len()
        invariant
            i <= entries.len(),
            same_headers(headers@, accepted_pairs(entries@.take(i as int))),
        decreases entries.len() - i,
    {
        let ghost seen = entries@.take(i as int);
        let ghost held = headers@;
        proof {
            assert(entries@.take(i + 1).drop_last() =~= seen);
            assert(entries@.take(i + 1).last() == entries@[i as int]);
        }
        let entry = &entries[i];
        if let Some(key) = &entry.key {
            if let Some(value) = &entry.value {
                if let Ok(name) = parse_header_name(key.as_str()) {
                    if let Ok(value) = parse_header_value(value.as_str()) {
                        let ghost pair = (name@, value@);
                        assert(entry_accepted(entries@[i as int]));
                        assert(pair == entry_pair(entries@[i as int]));
                        match headers.append(&name, value) {
                            Ok(_) => {},
                            Err(e) => {
                                proof {
                                    lemma_accepted_pairs_grow(entries@, i + 1);
                                    lemma_accepted_pairs_are_no_more(entries@);
                                }
                                return Err(e);
                            },
                        }
                        proof {
                            let grown = accepted_pairs(seen).push(pair);
                            assert forall|other: Seq<char>| #[trigger]
                                values_of(headers@, other) == values_of(grown, other) by {
                                lemma_values_of_push(accepted_pairs(seen), pair, other);
                                assert(values_of(held, other) == values_of(
                                    accepted_pairs(seen),
                                    other,
                                ));
                            }
                        }
                    }
                }
            }
        }
        i = i + 1;
    }
    proof {
        assert(entries@.take(entries@.len() as int) =~= entries@);
    }
    Ok(headers)
}

/// No more pairs are accepted than there are entries.
pub proof fn lemma_accepted_pairs_are_no_more(entries: Seq<HeaderEntry>)
    ensures
        accepted_pairs(entries).len() <= entries.len(),
    decreases entries.len(),
{
    if entries.len() > 0 {
        lemma_accepted_pairs_are_no_more(entries.drop_last());
    }
}

/// A list of entries accepts at least as many pairs as any of its beginnings.
pub proof fn lemma_accepted_pairs_grow(entries: Seq<HeaderEntry>, n: int)
    requires
        0 <= n <= entries.len(),
    ensures
        accepted_pairs(entries.take(n)).len() <= accepted_pairs(entries).len(),
    decreases entries.len() - n,
{
    if n == entries.len() {
        assert(entries.take(n) =~= entries);
    } else {
        assert(entries.take(n + 1).drop_last() =~= entries.take(n));
        lemma_accepted_pairs_grow(entries, n + 1);
    }
}

impl StandardRequest {
    /// A request of the service layer's own making.
    pub fn new(method: Method, uri: String, headers: Headers, body: Vec<u8>) -> (request:
        StandardRequest)
        ensures
            request@.method == method,
            request@.uri == uri@,
            request@.headers == headers@,
            request@.body == body@,
    {
        StandardRequest { method, uri, headers, body }
    }

    /// The method.
    pub fn method(&self) -> (method: &Method)
        ensures
            *method == self@.method,
    {
        &self.method
    }

    /// The URI, as text.
    pub fn uri(&self) -> (uri: &str)
        ensures
            uri@ == self@.uri,
    {
        self.uri.as_str()
    }

    /// The header multimap.
    pub fn headers(&self) -> (headers: &Headers)
        ensures
            headers@ == self@.headers,
    {
        &self.headers
    }

    /// The body.
    pub fn body(&self) -> (body: &[u8])
        ensures
            body@ == self@.body,
    {
        self.body.as_slice()
    }

    /// Gives up the request for its body.
    pub fn into_body(self) -> (body: Vec<u8>)
        ensures
            body@ == self@.body,
    {
        self.body
    }
}

/// The request that a host request is materialised as: the method that its
/// method text names, its URL as it stands, its body byte for byte, and the
/// accepted entries of its header view.
pub open spec fn is_materialized(request: StandardRequestView, edge: HostRequest) -> bool {
    &&& request.method.text() == edge.method@
    &&& request.method.wf()
    &&& request.uri == edge.url@
    &&& edge.body matches Ok(body) && request.body == body@
    &&& same_headers(request.headers, accepted_pairs(edge.headers@))
}

/// Builds the standard request once it is known whether the URI is accepted.
///
/// `refusal` holds the reason where the URI is refused, and nothing where it
/// is accepted. In this order: a text that is no method is refused with `Method`;
/// a failed body read surfaces as the failure that stands for the host's
/// fault; a refused URI surfaces as `Http` with the reason. Otherwise the
/// request is built: always where no more than `SURE_ROOM` header entries
/// are accepted, and beyond that unless the header map refuses an entry for
/// want of room. Entries that are malformed or lack a half are passed over
/// and never fail the request.
pub fn assemble_request(edge_request: HostRequest, refusal: Option<String>) -> (r: Result<
    StandardRequest,
    Error,
>)
    ensures
        !is_method_bytes(encode_utf8(edge_request.method@)) ==> r == Err::<StandardRequest, Error>(
            Error::Method,
        ),
        is_method_bytes(encode_utf8(edge_request.method@)) ==> match edge_request.body {
            Err(fault) => r == Err::<StandardRequest, Error>(Error::of_fault(fault)),
            Ok(_) => match refusal {
                Some(why) => r matches Err(e) && e is Http && e.message() == why@,
                None => {
                    ||| r matches Ok(request) && is_materialized(request@, edge_request)
                    ||| r matches Err(e) && e is Http && e.message() == "max size reached"@
                        && accepted_pairs(edge_request.headers@).len() > SURE_ROOM
                },
            },
        },
{
    let HostRequest { method, url, headers, body } = edge_request;
    let method = match parse_method(method.as_str()) {
        Ok(method) => method,
        Err(e) => {
            return Err(e);
        },
    };
    let body = match body {
        Ok(body) => body,
        Err(fault) => {
            return Err(Error::from(fault));
        },
    };
    if let Some(why) = refusal {
        return Err(Error::Http(why));
    }
    match collect_headers(&headers) {
        Ok(headers) => Ok(StandardRequest { method, uri: url, headers, body }),
        Err(e) => Err(e),
    }
}

/// Materialises a host request.
///
/// The outcome is that of `assemble_request` with what the `http` crate says
/// of the URL.
pub fn convert_request(edge_request: HostRequest) -> (r: Result<StandardRequest, Error>)
    ensures
        !is_method_bytes(encode_utf8(edge_request.method@)) ==> r == Err::<StandardRequest, Error>(
            Error::Method,
        ),
        is_method_bytes(encode_utf8(edge_request.method@)) ==> match edge_request.body {
            Err(fault) => r == Err::<StandardRequest, Error>(Error::of_fault(fault)),
            Ok(_) => match uri_refusal(edge_request.url@) {
                Some(why) => r matches Err(e) && e is Http && e.message() == why,
                None => {
                    ||| r matches Ok(request) && is_materialized(request@, edge_request)
                    ||| r matches Err(e) && e is Http && e.message() == "max size reached"@
                        && accepted_pairs(edge_request.headers@).len() > SURE_ROOM
                },
            },
        },
{
    let refusal = uri_refusal_of(edge_request.url.as_str());
    assemble_request(edge_request, refusal)
}

/// An entry that is not accepted leaves no trace, wherever in the view it
/// stands: the accepted entries are those of the view without it.
pub proof fn lemma_refused_entry_leaves_no_trace(
    entries: Seq<HeaderEntry>,
    at: int,
    entry: HeaderEntry,
)
    requires
        0 <= at <= entries.len(),
        !entry_accepted(entry),
    ensures
        accepted_pairs(entries.insert(at, entry)) == accepted_pairs(entries),
    decreases entries.len(),
{
    let with = entries.insert(at, entry);
    if at == entries.len() {
        assert(with.drop_last() =~= entries);
        assert(with.last() == entry);
    } else {
        assert(with.last() == entries.last());
        assert(with.drop_last() =~= entries.drop_last().insert(at, entry));
        lemma_refused_entry_leaves_no_trace(entries.drop_last(), at, entry);
    }
}

} // verus!
