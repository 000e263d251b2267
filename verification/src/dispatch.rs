//! The order of work behind the `fetch` entry point.
//!
//! One invocation materialises one request, awaits the handler's readiness,
//! calls the handler once, commits the head of the response and then streams
//! its body. The pipeline decides each next step; whoever drives it performs
//! the step and reports how it ended.

use vstd::prelude::*;
use crate::error::Error;
use crate::event::{is_failure_action, EventOptions, FailureAction};
use crate::request::StandardRequest;
use crate::response::{
    all_visible, convert_response, host_headers, HostResponse, HostResponseView, StandardResponse,
};
use crate::streams::{signal_of, BodyEvent, StreamSignal};

verus! {

/// How far an invocation has come.
#[derive(Debug)]
pub enum Stage {
    /// Nothing has happened yet.
    AwaitingRequest,
    /// The request is materialised; the handler is not yet ready.
    AwaitingReady(StandardRequest),
    /// The handler has been called.
    AwaitingResponse,
    /// The head of the response is committed; its body is being streamed.
    Streaming(HostResponse),
    /// The invocation is over.
    Finished,
}

/// How a step that the pipeline asked for has ended.
#[derive(Debug)]
pub enum FetchEvent {
    /// The host request has been read and materialised, or could not be.
    Materialized(Result<StandardRequest, Error>),
    /// The handler has reported that it is ready, or has failed.
    Ready(Result<(), Error>),
    /// The call of the handler has resolved.
    Responded(Result<StandardResponse, Error>),
    /// One poll of the response body's chunk producer has ended.
    Body(BodyEvent),
}

/// What the pipeline asks for next.
#[derive(Debug)]
pub enum FetchAction {
    /// Make the handler and await its readiness.
    AwaitReady,
    /// Call the handler with this request.
    Call(StandardRequest),
    /// Answer the host with the head that the pipeline now holds, and poll
    /// the body's chunk producer.
    Commit,
    /// Give the body stream this signal.
    Signal(StreamSignal),
    /// Deal with the failure as said.
    Fail(FailureAction),
    /// Nothing: the event came out of turn.
    Disregard,
}

/// The pipeline of one invocation.
#[derive(Debug)]
pub struct FetchPipeline {
    pub options: EventOptions,
    pub stage: Stage,
}

impl Stage {
    /// The place of a stage in the order of work.
    pub open spec fn rank(self) -> nat {
        match self {
            Stage::AwaitingRequest => 0,
            Stage::AwaitingReady(_) => 1,
            Stage::AwaitingResponse => 2,
            Stage::Streaming(_) => 3,
            Stage::Finished => 4,
        }
    }
}

/// Whether an event is the one that a stage waits for.
pub open spec fn in_turn(stage: Stage, event: FetchEvent) -> bool {
    match (stage, event) {
        (Stage::AwaitingRequest, FetchEvent::Materialized(_)) => true,
        (Stage::AwaitingReady(_), FetchEvent::Ready(_)) => true,
        (Stage::AwaitingResponse, FetchEvent::Responded(_)) => true,
        (Stage::Streaming(host), FetchEvent::Body(_)) => host@.open,
        _ => false,
    }
}

impl FetchPipeline {
    /// The pipeline of a new invocation.
    pub fn new(options: EventOptions) -> (pipeline: FetchPipeline)
        ensures
            pipeline.options == options,
            pipeline.stage is AwaitingRequest,
    {
        FetchPipeline { options, stage: Stage::AwaitingRequest }
    }

    /// Takes the outcome of the last step and decides the next one.
    ///
    /// The work never goes back: the handler is called only once it is
    /// ready, and at most once; the head is committed only after the call
    /// has resolved; signals reach the body stream only after the head is
    /// committed, one for each event and in their order. A failure before
    /// the head is committed is dealt with as the options say. Once the head
    /// is committed nothing takes it back: a fault of the body aborts the
    /// stream and no other response is put in its place. An event that the
    /// stage does not wait for changes nothing.
    pub fn step(self, event: FetchEvent) -> (r: (FetchPipeline, FetchAction))
        ensures
            r.0.options == self.options,
            r.0.stage.rank() >= self.stage.rank(),
            r.1 is AwaitReady ==> self.stage.rank() == 0 && r.0.stage.rank() == 1,
            r.1 is Call ==> self.stage.rank() == 1 && r.0.stage.rank() == 2,
            r.1 is Commit ==> self.stage.rank() == 2 && r.0.stage.rank() == 3,
            r.1 is Signal ==> self.stage.rank() == 3,
            r.1 is Fail ==> self.stage.rank() <= 2 && r.0.stage.rank() == 4,
            !in_turn(self.stage, event) ==> r.0.stage == self.stage && r.1 is Disregard,
            in_turn(self.stage, event) ==> match (self.stage, event) {
                (Stage::AwaitingRequest, FetchEvent::Materialized(Ok(request))) => r.0.stage
                    == Stage::AwaitingReady(request) && r.1 is AwaitReady,
                (Stage::AwaitingReady(request), FetchEvent::Ready(Ok(_))) => r.0.stage
                    is AwaitingResponse && r.1 == FetchAction::Call(request),
                (Stage::AwaitingResponse, FetchEvent::Responded(Ok(response))) => if all_visible(
                    response@.headers,
                ) {
                    &&& r.1 is Commit
                    &&& r.0.stage matches Stage::Streaming(host)
                    &&& host@ == HostResponseView {
                        status: response@.status,
                        headers: host_headers(response@.headers),
                        open: true,
                    }
                } else {
                    &&& r.0.stage is Finished
                    &&& r.1 matches FetchAction::Fail(action)
                    &&& is_failure_action(
                        self.options,
                        Error::HeaderValueContent.message(),
                        action,
                    )
                },
                (Stage::Streaming(host), FetchEvent::Body(body)) => {
                    &&& r.1 matches FetchAction::Signal(signal)
                    &&& signal@ == signal_of(body@)
                    &&& if body is Chunk {
                        r.0.stage matches Stage::Streaming(after) && after@ == host@
                    } else {
                        r.0.stage is Finished
                    }
                },
                (_, FetchEvent::Materialized(Err(e)))
                | (_, FetchEvent::Ready(Err(e)))
                | (_, FetchEvent::Responded(Err(e))) => {
                    &&& r.0.stage is Finished
                    &&& r.1 matches FetchAction::Fail(action)
                    &&& is_failure_action(self.options, e.message(), action)
                },
                _ => false,
            },
    {
        let FetchPipeline { options, stage } = self;
        match (stage, event) {
            (Stage::AwaitingRequest, FetchEvent::Materialized(outcome)) => match outcome {
                Ok(request) => (
                    FetchPipeline { options, stage: Stage::AwaitingReady(request) },
                    FetchAction::AwaitReady,
                ),
                Err(e) => (
                    FetchPipeline { options, stage: Stage::Finished },
                    FetchAction::Fail(options.on_failure(&e)),
                ),
            },
            (Stage::AwaitingReady(request), FetchEvent::Ready(outcome)) => match outcome {
                Ok(_) => (
                    FetchPipeline { options, stage: Stage::AwaitingResponse },
                    FetchAction::Call(request),
                ),
                Err(e) => (
                    FetchPipeline { options, stage: Stage::Finished },
                    FetchAction::Fail(options.on_failure(&e)),
                ),
            },
            (Stage::AwaitingResponse, FetchEvent::Responded(outcome)) => match outcome {
                Ok(response) => match convert_response(&response) {
                    Ok(host) => (
                        FetchPipeline { options, stage: Stage::Streaming(host) },
                        FetchAction::Commit,
                    ),
                    Err(e) => (
                        FetchPipeline { options, stage: Stage::Finished },
                        FetchAction::Fail(options.on_failure(&e)),
                    ),
                },
                Err(e) => (
                    FetchPipeline { options, stage: Stage::Finished },
                    FetchAction::Fail(options.on_failure(&e)),
                ),
            },
            (Stage::Streaming(host), FetchEvent::Body(body)) => {
                if !host.is_open() {
                    return (
                        FetchPipeline { options, stage: Stage::Streaming(host) },
                        FetchAction::Disregard,
                    );
                }
                let mut host = host;
                match host.push_event(&body) {
                    Some(signal) => {
                        let stage = if host.is_open() {
                            Stage::Streaming(host)
                        } else {
                            Stage::Finished
                        };
                        (FetchPipeline { options, stage }, FetchAction::Signal(signal))
                    },
                    None => vstd::pervasive::unreached(),
                }
            },
            (stage, _) => (FetchPipeline { options, stage }, FetchAction::Disregard),
        }
    }
}

} // verus!
