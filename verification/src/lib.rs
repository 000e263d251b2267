//! Boundary adapter between a host runtime's request/response objects and
//! standard HTTP requests and responses.
//!
//! The host hands over requests in its own object model and expects responses
//! in the same. This crate holds the rules of the conversion: which methods,
//! header names and header values are accepted, how a request is materialised,
//! how a response head is committed and its body streamed chunk by chunk, and
//! how the three host-visible entry points are declared and what they do when
//! a handler fails.

pub mod dispatch;
pub mod error;
pub mod event;
pub mod grammar;
pub mod header;
pub mod headers;
pub mod method;
pub mod request;
pub mod response;
pub mod roundtrip;
pub mod streams;
pub mod text;

pub use crate::dispatch::{FetchAction, FetchEvent, FetchPipeline, Stage};
pub use crate::error::{Error, HostFault};
pub use crate::event::{parse_options, EventError, EventOptions, FailureAction, HandlerType};
pub use crate::header::{parse_header_name, parse_header_value, HeaderName, HeaderValue};
pub use crate::headers::Headers;
pub use crate::method::{parse_method, Method};
pub use crate::request::{
    assemble_request, collect_headers, convert_request, HeaderEntry, HostRequest, StandardRequest,
};
pub use crate::response::{convert_response, HostResponse, ResponseBody, StandardResponse};
pub use crate::streams::{BodyEvent, BytePoll, ByteStream, HostPoll, StreamSignal};
