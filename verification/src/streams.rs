//! Byte streams between the host and the adapter, one chunk at a time.

use vstd::prelude::*;
use crate::error::{Error, HostFault};

verus! {

/// What one poll of a response's chunk producer ends in, once it is ready.
#[derive(Debug, PartialEq, Eq)]
pub enum BodyEvent {
    /// The next chunk.
    Chunk(Vec<u8>),
    /// The producer is done.
    End,
    /// The producer failed; the text says how.
    Fault(String),
}

/// What the host stream is given.
#[derive(Debug, PartialEq, Eq)]
pub enum StreamSignal {
    /// One chunk, copied into a buffer of the host's.
    Push(Vec<u8>),
    /// The body is complete.
    Close,
    /// The body ends here, cut short, with the text as the reason.
    Abort(String),
}

pub enum BodyEventView {
    Chunk(Seq<u8>),
    End,
    Fault(Seq<char>),
}

pub enum StreamSignalView {
    Push(Seq<u8>),
    Close,
    Abort(Seq<char>),
}

impl View for BodyEvent {
    type V = BodyEventView;

    open spec fn view(&self) -> BodyEventView {
        match self {
            BodyEvent::Chunk(bytes) => BodyEventView::Chunk(bytes@),
            BodyEvent::End => BodyEventView::End,
            BodyEvent::Fault(why) => BodyEventView::Fault(why@),
        }
    }
}

impl View for StreamSignal {
    type V = StreamSignalView;

    open spec fn view(&self) -> StreamSignalView {
        match self {
            StreamSignal::Push(bytes) => StreamSignalView::Push(bytes@),
            StreamSignal::Close => StreamSignalView::Close,
            StreamSignal::Abort(why) => StreamSignalView::Abort(why@),
        }
    }
}

/// The signal that answers an event: a chunk is pushed as it is, the end
/// closes the stream, a fault aborts it.
pub open spec fn signal_of(event: BodyEventView) -> StreamSignalView {
    match event {
        BodyEventView::Chunk(bytes) => StreamSignalView::Push(bytes),
        BodyEventView::End => StreamSignalView::Close,
        BodyEventView::Fault(why) => StreamSignalView::Abort(why),
    }
}

/// The signals that a run of events gives a stream: one for each event while
/// the stream is open, none once it is closed or aborted.
pub open spec fn signals_of(open: bool, events: Seq<BodyEventView>) -> Seq<StreamSignalView>
    decreases events.len(),
{
    if events.len() == 0 {
        Seq::empty()
    } else if open {
        seq![signal_of(events[0])] + signals_of(events[0] is Chunk, events.drop_first())
    } else {
        signals_of(false, events.drop_first())
    }
}

/// Whether every event of a run is a chunk, so that a stream that was open
/// before the run is open after it.
pub open spec fn all_chunks(events: Seq<BodyEventView>) -> bool {
    forall|i: int| 0 <= i < events.len() ==> (#[trigger] events[i]) is Chunk
}

/// The views of a list of events.
pub open spec fn events_view(events: Seq<BodyEvent>) -> Seq<BodyEventView> {
    Seq::new(events.len(), |i: int| events[i]@)
}

/// The views of a list of signals.
pub open spec fn signals_view(signals: Seq<StreamSignal>) -> Seq<StreamSignalView> {
    Seq::new(signals.len(), |i: int| signals[i]@)
}

/// The bytes that a run of signals has pushed, end to end.
pub open spec fn pushed_bytes(signals: Seq<StreamSignalView>) -> Seq<u8>
    decreases signals.len(),
{
    if signals.len() == 0 {
        Seq::empty()
    } else {
        match signals[0] {
            StreamSignalView::Push(bytes) => bytes + pushed_bytes(signals.drop_first()),
            _ => pushed_bytes(signals.drop_first()),
        }
    }
}

/// The signal for one event. The bytes of a chunk are copied into a buffer
/// of their own.
pub fn signal_for(event: &BodyEvent) -> (signal: StreamSignal)
    ensures
        signal@ == signal_of(event@),
{
    match event {
        BodyEvent::Chunk(bytes) => StreamSignal::Push(bytes.clone()),
        BodyEvent::End => StreamSignal::Close,
        BodyEvent::Fault(why) => StreamSignal::Abort(why.clone()),
    }
}

/// The events of a producer that yields the given chunks, one event each.
pub open spec fn chunk_events(chunks: Seq<Seq<u8>>) -> Seq<BodyEventView> {
    Seq::new(chunks.len(), |i: int| BodyEventView::Chunk(chunks[i]))
}

/// One push for each of the given chunks.
pub open spec fn chunk_pushes(chunks: Seq<Seq<u8>>) -> Seq<StreamSignalView> {
    Seq::new(chunks.len(), |i: int| StreamSignalView::Push(chunks[i]))
}

/// The given chunks end to end.
pub open spec fn joined(chunks: Seq<Seq<u8>>) -> Seq<u8>
    decreases chunks.len(),
{
    if chunks.len() == 0 {
        Seq::empty()
    } else {
        chunks[0] + joined(chunks.drop_first())
    }
}

/// A run with one more event is all chunks exactly when the run was and the
/// event is one.
pub proof fn lemma_all_chunks_of_push(events: Seq<BodyEventView>, event: BodyEventView)
    ensures
        all_chunks(events.push(event)) == (all_chunks(events) && event is Chunk),
{
    let more = events.push(event);
    if all_chunks(more) {
        assert(more[events.len() as int] is Chunk);
        assert forall|i: int| 0 <= i < events.len() implies (#[trigger] events[i]) is Chunk by {
            assert(more[i] is Chunk);
        }
    }
    if all_chunks(events) && event is Chunk {
        assert forall|i: int| 0 <= i < more.len() implies (#[trigger] more[i]) is Chunk by {
            if i < events.len() {
                assert(events[i] is Chunk);
            }
        }
    }
}

/// A stream that is closed or aborted gives the host nothing more, whatever
/// events follow.
pub proof fn lemma_closed_stream_is_silent(events: Seq<BodyEventView>)
    ensures
        signals_of(false, events) == Seq::<StreamSignalView>::empty(),
    decreases events.len(),
{
    if events.len() > 0 {
        lemma_closed_stream_is_silent(events.drop_first());
    }
}

/// An open stream that is given chunks and then some more events pushes
/// each chunk, whole and in its turn, and then goes on with the other
/// events as an open stream does.
pub proof fn lemma_chunks_are_pushed_in_order(chunks: Seq<Seq<u8>>, later: Seq<BodyEventView>)
    ensures
        signals_of(true, chunk_events(chunks) + later) == chunk_pushes(chunks) + signals_of(
            true,
            later,
        ),
    decreases chunks.len(),
{
    let events = chunk_events(chunks) + later;
    if chunks.len() == 0 {
        assert(events =~= later);
        assert(chunk_pushes(chunks) + signals_of(true, later) =~= signals_of(true, later));
    } else {
        let rest = chunks.drop_first();
        lemma_chunks_are_pushed_in_order(rest, later);
        assert(events[0] == BodyEventView::Chunk(chunks[0]));
        assert(events.drop_first() =~= chunk_events(rest) + later);
        assert(seq![signal_of(events[0])] + (chunk_pushes(rest) + signals_of(true, later))
            =~= chunk_pushes(chunks) + signals_of(true, later));
    }
}

/// A producer that yields chunks and then ends has the host see one push for
/// each chunk, in the producer's order, and then the close: no chunk is
/// merged with another, split, left out or moved.
pub proof fn lemma_chunks_then_end(chunks: Seq<Seq<u8>>)
    ensures
        signals_of(true, chunk_events(chunks).push(BodyEventView::End)) == chunk_pushes(
            chunks,
        ).push(StreamSignalView::Close),
{
    let end = seq![BodyEventView::End];
    lemma_chunks_are_pushed_in_order(chunks, end);
    lemma_closed_stream_is_silent(end.drop_first());
    assert(chunk_events(chunks).push(BodyEventView::End) =~= chunk_events(chunks) + end);
    assert(signals_of(true, end) =~= seq![StreamSignalView::Close]);
    assert(chunk_pushes(chunks) + seq![StreamSignalView::Close] =~= chunk_pushes(chunks).push(
        StreamSignalView::Close,
    ));
}

/// A producer that fails after some chunks has the host see those chunks and
/// then the abort with the producer's reason, and nothing after it, whatever
/// the producer might yield later.
pub proof fn lemma_fault_cuts_the_body_short(
    chunks: Seq<Seq<u8>>,
    why: Seq<char>,
    later: Seq<BodyEventView>,
)
    ensures
        signals_of(true, chunk_events(chunks).push(BodyEventView::Fault(why)) + later)
            == chunk_pushes(chunks).push(StreamSignalView::Abort(why)),
{
    let tail = seq![BodyEventView::Fault(why)] + later;
    lemma_chunks_are_pushed_in_order(chunks, tail);
    lemma_closed_stream_is_silent(tail.drop_first());
    assert(chunk_events(chunks).push(BodyEventView::Fault(why)) + later =~= chunk_events(chunks)
        + tail);
    assert(signals_of(true, tail) =~= seq![StreamSignalView::Abort(why)]);
    assert(chunk_pushes(chunks) + seq![StreamSignalView::Abort(why)] =~= chunk_pushes(chunks).push(
        StreamSignalView::Abort(why),
    ));
}

/// The bytes that the pushes of some chunks carry are the chunks end to end,
/// and a close or an abort after them adds nothing.
pub proof fn lemma_pushed_bytes_of_chunks(chunks: Seq<Seq<u8>>, last: StreamSignalView)
    requires
        !(last is Push),
    ensures
        pushed_bytes(chunk_pushes(chunks).push(last)) == joined(chunks),
    decreases chunks.len(),
{
    let signals = chunk_pushes(chunks).push(last);
    if chunks.len() == 0 {
        assert(signals.drop_first() =~= Seq::empty());
        assert(pushed_bytes(signals.drop_first()) =~= Seq::empty());
    } else {
        let rest = chunks.drop_first();
        lemma_pushed_bytes_of_chunks(rest, last);
        assert(signals[0] == StreamSignalView::Push(chunks[0]));
        assert(signals.drop_first() =~= chunk_pushes(rest).push(last));
    }
}

/// What a poll of the host's stream ends in.
#[derive(Debug, PartialEq, Eq)]
pub enum HostPoll {
    /// Nothing is ready yet.
    Pending,
    /// The stream is done.
    Ended,
    /// The next chunk.
    Chunk(Vec<u8>),
    /// The stream raised a fault.
    Fault(HostFault),
}

/// What a poll of a byte stream ends in.
#[derive(Debug, PartialEq, Eq)]
pub enum BytePoll {
    /// Nothing is ready yet.
    Pending,
    /// The stream is done.
    Ended,
    /// The next chunk.
    Chunk(Vec<u8>),
    /// The stream failed.
    Failed(Error),
}

/// A stream of byte chunks read from a stream of the host's.
#[derive(Debug)]
pub struct ByteStream {}

impl ByteStream {
    /// A stream over a stream of the host's.
    pub fn new() -> ByteStream {
        ByteStream {  }
    }

    /// Turns the outcome of a poll of the host's stream into the outcome of a
    /// poll of this one: a chunk stays a chunk, byte for byte, the end stays
    /// the end, a fault becomes the failure that stands for it, and a poll
    /// that is not ready stays so.
    pub fn poll_next(&mut self, polled: HostPoll) -> (r: BytePoll)
        ensures
            r == match polled {
                HostPoll::Pending => BytePoll::Pending,
                HostPoll::Ended => BytePoll::Ended,
                HostPoll::Chunk(bytes) => BytePoll::Chunk(bytes),
                HostPoll::Fault(fault) => BytePoll::Failed(Error::of_fault(fault)),
            },
    {
        match polled {
            HostPoll::Pending => BytePoll::Pending,
            HostPoll::Ended => BytePoll::Ended,
            HostPoll::Chunk(bytes) => BytePoll::Chunk(bytes),
            HostPoll::Fault(fault) => BytePoll::Failed(Error::from(fault)),
        }
    }
}

} // verus!
