//! The failures that can come out of the adapter.

use vstd::prelude::*;
use vstd::string::StringExecFns;

verus! {

/// All possible failures that might be met while working with the host.
#[derive(Debug, Clone, PartialEq, Eq)]
pub enum Error {
    BadEncoding,
    Json,
    /// A fault raised by the host, with the host's own description.
    JsError(String),
    /// A fault raised by the host that carries no description.
    Internal,
    StatusCode,
    Redirect,
    /// No binding of this name exists.
    BindingError(String),
    RouteInsertError,
    RouteNoDataError,
    Message(String),
    SerdeJson(String),
    KvError,
    ReadBody,
    /// A request or response could not be built; the text says why.
    Http(String),
    /// A text is no header value.
    HeaderValue,
    /// A text is no header name.
    HeaderName,
    /// A header value cannot be handed to the host as text.
    HeaderValueContent,
    /// A text is no request method.
    Method,
    BoxedError(String),
}

/// What the host raised, reduced to what the adapter reads of it: the value
/// itself where it is a string, and its description where it is an error
/// object.
#[derive(Debug, Clone, PartialEq, Eq)]
pub struct HostFault {
    pub text: Option<String>,
    pub error_text: Option<String>,
}

impl Error {
    /// The human-readable cause.
    pub open spec fn message(self) -> Seq<char> {
        match self {
            Error::BadEncoding => "content-type mismatch"@,
            Error::Json => "failed to encode data to json"@,
            Error::JsError(s) => s@,
            Error::Internal => "unrecognized JavaScript object"@,
            Error::StatusCode => "error status codes must be in the 400-599 range"@,
            Error::Redirect => "redirect status codes must be in the 300-399 range"@,
            Error::BindingError(name) => "no binding found for `"@ + name@ + "`"@,
            Error::RouteInsertError => "failed to insert route"@,
            Error::RouteNoDataError => "route has no corresponding shared data"@,
            Error::Message(s) => s@,
            Error::SerdeJson(s) => s@,
            Error::KvError => "Cloudflare K/V error"@,
            Error::ReadBody => "failed to read body from request"@,
            Error::Http(s) => s@,
            Error::HeaderValue => "failed to parse header value"@,
            Error::HeaderName => "invalid HTTP header name"@,
            Error::HeaderValueContent => "failed to convert header to a str"@,
            Error::Method => "invalid HTTP method"@,
            Error::BoxedError(s) => s@,
        }
    }

    /// The failure that stands for a host fault: the fault's text where it has
    /// one, else the description of its error object, else `Internal`.
    pub open spec fn of_fault(fault: HostFault) -> Error {
        match fault.text {
            Some(s) => Error::JsError(s),
            None => match fault.error_text {
                Some(s) => Error::JsError(s),
                None => Error::Internal,
            },
        }
    }

    /// The human-readable cause, as text.
    pub fn to_text(&self) -> (text: String)
        ensures
            text@ == self.message(),
    {
        match self {
            Error::BadEncoding => String::from_str("content-type mismatch"),
            Error::Json => String::from_str("failed to encode data to json"),
            Error::JsError(s) => s.clone(),
            Error::Internal => String::from_str("unrecognized JavaScript object"),
            Error::StatusCode => String::from_str(
                "error status codes must be in the 400-599 range",
            ),
            Error::Redirect => String::from_str(
                "redirect status codes must be in the 300-399 range",
            ),
            Error::BindingError(name) => String::from_str("no binding found for `").concat(
                name.as_str(),
            ).concat("`"),
            Error::RouteInsertError => String::from_str("failed to insert route"),
            Error::RouteNoDataError => String::from_str("route has no corresponding shared data"),
            Error::Message(s) => s.clone(),
            Error::SerdeJson(s) => s.clone(),
            Error::KvError => String::from_str("Cloudflare K/V error"),
            Error::ReadBody => String::from_str("failed to read body from request"),
            Error::Http(s) => s.clone(),
            Error::HeaderValue => String::from_str("failed to parse header value"),
            Error::HeaderName => String::from_str("invalid HTTP header name"),
            Error::HeaderValueContent => String::from_str("failed to convert header to a str"),
            Error::Method => String::from_str("invalid HTTP method"),
            Error::BoxedError(s) => s.clone(),
        }
    }
}

impl From<HostFault> for Error {
    fn from(fault: HostFault) -> (e: Error) {
        match fault.text {
            Some(s) => Error::JsError(s),
            None => match fault.error_text {
                Some(s) => Error::JsError(s),
                None => Error::Internal,
            },
        }
    }
}

impl vstd::std_specs::convert::FromSpecImpl<HostFault> for Error {
    open spec fn obeys_from_spec() -> bool {
        true
    }

    open spec fn from_spec(fault: HostFault) -> Error {
        Error::of_fault(fault)
    }
}

} // verus!
