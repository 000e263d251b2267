//! Committing the head of a standard response to the host and streaming its
//! body.

use vstd::prelude::*;
use vstd::utf8::{decode_utf8, encode_utf8};
use crate::error::Error;
use crate::grammar::is_visible_bytes;
use crate::headers::{pairs_of, Headers};
use crate::streams::{
    all_chunks, events_view, lemma_all_chunks_of_push, pushed_bytes, signal_for, signal_of, signals_of, signals_view, BodyEvent,
    BodyEventView, StreamSignal, StreamSignalView,
};

verus! {

/// The body of a standard response.
#[derive(Debug, PartialEq, Eq)]
pub enum ResponseBody {
    /// No body.
    Empty,
    /// A body that is fully resident.
    Fixed(Vec<u8>),
    /// A body that a chunk producer yields piece by piece.
    Lazy,
}

/// A standard response: a status code from 100 to 599, headers and a body.
#[derive(Debug)]
pub struct StandardResponse {
    status: u16,
    headers: Headers,
    body: ResponseBody,
}

/// What a standard response holds, but for the bytes still to come.
pub struct StandardResponseView {
    pub status: u16,
    pub headers: Seq<(Seq<char>, Seq<u8>)>,
    pub body: ResponseBody,
}

impl View for StandardResponse {
    type V = StandardResponseView;

    closed spec fn view(&self) -> StandardResponseView {
        StandardResponseView { status: self.status, headers: self.headers@, body: self.body }
    }
}

/// A response of the host's: the head that was committed, and whether its
/// body stream still takes chunks.
#[derive(Debug)]
pub struct HostResponse {
    status: u16,
    headers: Vec<(String, String)>,
    open: bool,
}

/// What a host response holds.
pub struct HostResponseView {
    pub status: u16,
    pub headers: Seq<(Seq<char>, Seq<char>)>,
    pub open: bool,
}

impl View for HostResponse {
    type V = HostResponseView;

    closed spec fn view(&self) -> HostResponseView {
        HostResponseView {
            status: self.status,
            headers: Seq::new(
                self.headers@.len(),
                |i: int| (self.headers@[i].0@, self.headers@[i].1@),
            ),
            open: self.open,
        }
    }
}

/// Every value of the list can be handed to the host as text.
pub open spec fn all_visible(pairs: Seq<(Seq<char>, Seq<u8>)>) -> bool {
    forall|i: int| 0 <= i < pairs.len() ==> is_visible_bytes(#[trigger] pairs[i].1)
}

/// The headers as the host takes them: pair for pair, each value as text.
pub open spec fn host_headers(pairs: Seq<(Seq<char>, Seq<u8>)>) -> Seq<(Seq<char>, Seq<char>)> {
    Seq::new(pairs.len(), |i: int| (pairs[i].0, decode_utf8(pairs[i].1)))
}

/// The events that a resident body yields: its bytes as one chunk unless
/// there are none, then the end.
pub open spec fn resident_events(body: Seq<u8>) -> Seq<BodyEventView> {
    if body.len() == 0 {
        seq![BodyEventView::End]
    } else {
        seq![BodyEventView::Chunk(body), BodyEventView::End]
    }
}

impl ResponseBody {
    /// The events of a body that needs no producer; `None` for a lazy one.
    pub fn into_events(self) -> (events: Option<Vec<BodyEvent>>)
        ensures
            match self {
                ResponseBody::Empty => events matches Some(list) && events_view(list@)
                    == resident_events(Seq::empty()),
                ResponseBody::Fixed(bytes) => events matches Some(list) && events_view(list@)
                    == resident_events(bytes@),
                ResponseBody::Lazy => events is None,
            },
    {
        match self {
            ResponseBody::Empty => {
                let list = vec![BodyEvent::End];
                assert(events_view(list@) =~= resident_events(Seq::empty()));
                Some(list)
            },
            ResponseBody::Fixed(bytes) => {
                let ghost body = bytes@;
                let list = if bytes.len() == 0 {
                    vec![BodyEvent::End]
                } else {
                    vec![BodyEvent::Chunk(bytes), BodyEvent::End]
                };
                assert(events_view(list@) =~= resident_events(body));
                Some(list)
            },
            ResponseBody::Lazy => None,
        }
    }
}

impl StandardResponse {
    #[verifier::type_invariant]
    closed spec fn status_in_range(self) -> bool {
        100 <= self.status <= 599
    }

    /// A response with the given head and body; `None` unless the status
    /// code is from 100 to 599.
    pub fn new(status: u16, headers: Headers, body: ResponseBody) -> (response: Option<
        StandardResponse,
    >)
        ensures
            response is Some <==> 100 <= status <= 599,
            response matches Some(made) ==> made@.status == status && made@.headers == headers@
                && made@.body == body,
    {
        if 100 <= status && status <= 599 {
            Some(StandardResponse { status, headers, body })
        } else {
            None
        }
    }

    /// The status code.
    pub fn status(&self) -> (status: u16)
        ensures
            status == self@.status,
            100 <= status <= 599,
    {
        proof {
            use_type_invariant(self);
        }
        self.status
    }

    /// The header multimap.
    pub fn headers(&self) -> (headers: &Headers)
        ensures
            headers@ == self@.headers,
    {
        &self.headers
    }

    /// Gives up the response for its body.
    pub fn into_body(self) -> (body: ResponseBody)
        ensures
            body == self@.body,
    {
        self.body
    }
}

impl HostResponse {
    /// The status code that was committed.
    pub fn status(&self) -> (status: u16)
        ensures
            status == self@.status,
    {
        self.status
    }

    /// The headers that were committed, in the order in which the host was
    /// given them.
    pub fn headers(&self) -> (headers: &Vec<(String, String)>)
        ensures
            headers@.len() == self@.headers.len(),
            forall|i: int|
                0 <= i < headers@.len() ==> (#[trigger] headers@[i]).0@ == self@.headers[i].0
                    && headers@[i].1@ == self@.headers[i].1,
    {
        &self.headers
    }

    /// Whether the body stream still takes chunks.
    pub fn is_open(&self) -> (open: bool)
        ensures
            open == self@.open,
    {
        self.open
    }

    /// Hands the body stream what one poll of the chunk producer ended in.
    ///
    /// While the stream is open, a chunk is pushed as it is, the end closes
    /// the stream and a fault aborts it; after either of the last two
    /// nothing more reaches the host. The head stays as it was committed.
    pub fn push_event(&mut self, event: &BodyEvent) -> (signal: Option<StreamSignal>)
        ensures
            final(self)@.status == old(self)@.status,
            final(self)@.headers == old(self)@.headers,
            old(self)@.open ==> (signal matches Some(given) && given@ == signal_of(event@)),
            !old(self)@.open ==> signal is None,
            final(self)@.open == (old(self)@.open && event@ is Chunk),
    {
        if self.open {
            self.open = match event {
                BodyEvent::Chunk(_) => true,
                _ => false,
            };
            Some(signal_for(event))
        } else {
            None
        }
    }

    /// Hands the body stream a run of events, one at a time and in their
    /// order, and returns what the host was given. The stream is open
    /// afterwards exactly when it was open before and every event was a
    /// chunk: a stream that is closed or aborted stays so.
    pub fn push_events(&mut self, events: &Vec<BodyEvent>) -> (signals: Vec<StreamSignal>)
        ensures
            final(self)@.status == old(self)@.status,
            final(self)@.headers == old(self)@.headers,
            final(self)@.open == (old(self)@.open && all_chunks(events_view(events@))),
            signals_view(signals@) == signals_of(old(self)@.open, events_view(events@)),
    {
        let ghost all = events_view(events@);
        let ghost was_open = self@.open;
        let mut signals: Vec<StreamSignal> = Vec::new();
        let mut i: usize = 0;
        proof {
            assert(all.skip(0) =~= all);
            assert(signals_view(signals@) + signals_of(was_open, all) =~= signals_of(
                was_open,
                all,
            ));
        }
        while i < events.len()
            invariant
                i <= events.len(),
                all == events_view(events@),
                self@.status == old(self)@.status,
                self@.headers == old(self)@.headers,
                self@.open == (was_open && all_chunks(all.take(i as int))),
                signals_of(was_open, all) == signals_view(signals@) + signals_of(
                    self@.open,
                    all.skip(i as int),
                ),
            decreases events.len() - i,
        {
            let ghost rest = all.skip(i as int);
            let ghost before = signals_view(signals@);
            proof {
                assert(rest.drop_first() =~= all.skip(i + 1));
                assert(rest[0] == events@[i as int]@);
                lemma_all_chunks_of_push(all.take(i as int), all[i as int]);
                assert(all.take(i + 1) =~= all.take(i as int).push(all[i as int]));
            }
            match self.push_event(&events[i]) {
                Some(signal) => {
                    signals.push(signal);
                    assert(signals_view(signals@) =~= before + seq![signal_of(rest[0])]);
                },
                None => {},
            }
            i = i + 1;
        }
        proof {
            assert(all.take(events@.len() as int) =~= all);
            assert(all.skip(events@.len() as int) =~= Seq::empty());
            assert(signals_view(signals@) + Seq::empty() =~= signals_view(signals@));
        }
        signals
    }
}

/// Commits the head of a response to the host.
///
/// Every header is handed over as text, pair for pair and in the order of
/// the multimap, with the status code beside them; the body stream is open.
/// A response with a value that is no visible text is refused with
/// `HeaderValueContent`, and nothing is committed.
pub fn convert_response(response: &StandardResponse) -> (r: Result<HostResponse, Error>)
    ensures
        all_visible(response@.headers) ==> (r matches Ok(host) && host@ == HostResponseView {
            status: response@.status,
            headers: host_headers(response@.headers),
            open: true,
        }),
        !all_visible(response@.headers) ==> r matches Err(Error::HeaderValueContent),
{
    let entries = response.headers.entries();
    let ghost pairs = response@.headers;
    let mut headers: Vec<(String, String)> = Vec::new();
    let mut i: usize = 0;
    while i < entries.len()
        invariant
            i <= entries.len(),
            pairs_of(entries@) == pairs,
            pairs == response@.headers,
            headers@.len() == i,
            forall|j: int| 0 <= j < i ==> is_visible_bytes(#[trigger] pairs[j].1),
            forall|j: int|
                0 <= j < i ==> (#[trigger] headers@[j]).0@ == pairs[j].0 && headers@[j].1@
                    == decode_utf8(pairs[j].1),
        decreases entries.len() - i,
    {
        assert(pairs[i as int] == (entries@[i as int].0@, entries@[i as int].1@));
        let name = entries[i].0.as_str().to_owned();
        let text = match entries[i].1.to_text() {
            Ok(text) => text,
            Err(e) => {
                assert(!is_visible_bytes(pairs[i as int].1));
                return Err(e);
            },
        };
        proof {
            vstd::utf8::encode_utf8_decode_utf8(text@);
        }
        headers.push((name, text));
        i = i + 1;
    }
    let host = HostResponse { status: response.status, headers, open: true };
    assert(host@.headers =~= host_headers(pairs));
    Ok(host)
}

/// A body that is resident reaches the host byte for byte, whatever its
/// length, the empty one included: what the stream pushes, end to end, is
/// the body, and the stream is closed after it. With a request materialised
/// from a host request, whose body is the host's byte for byte, this is the
/// way of a body from the host and back.
pub proof fn lemma_resident_body_is_streamed_whole(body: Seq<u8>)
    ensures
        pushed_bytes(signals_of(true, resident_events(body))) == body,
        signals_of(true, resident_events(body)).last() == StreamSignalView::Close,
{
    let events = resident_events(body);
    let signals = signals_of(true, events);
    if body.len() == 0 {
        assert(signals_of(false, events.drop_first()) =~= Seq::empty());
        assert(signals =~= seq![StreamSignalView::Close]);
        assert(pushed_bytes(signals.drop_first()) =~= Seq::empty());
        assert(pushed_bytes(signals) =~= body);
    } else {
        let rest = events.drop_first();
        assert(rest =~= seq![BodyEventView::End]);
        assert(signals_of(false, rest.drop_first()) =~= Seq::empty());
        assert(signals_of(true, rest) =~= seq![StreamSignalView::Close]);
        assert(signals =~= seq![StreamSignalView::Push(body), StreamSignalView::Close]);
        let after = signals.drop_first();
        assert(after =~= seq![StreamSignalView::Close]);
        assert(pushed_bytes(after.drop_first()) =~= Seq::empty());
        assert(pushed_bytes(after) =~= Seq::empty());
        assert(pushed_bytes(signals) =~= body + Seq::empty());
        assert(body + Seq::<u8>::empty() =~= body);
    }
}

} // verus!
