//! Request methods.

use std::str::FromStr;
use vstd::prelude::*;
use vstd::string::StringSliceAdditionalSpecFns;
use vstd::utf8::encode_utf8;
use crate::error::Error;
use crate::grammar::is_method_bytes;
use crate::text::same_text;

verus! {

/// `http::method::InvalidMethod`, carried through as it comes.
#[verifier::external_type_specification]
#[verifier::external_body]
pub struct ExInvalidMethod(http::method::InvalidMethod);

/// A request method: one of the nine standard ones, or an extension under
/// its own name.
#[derive(Debug, Clone, PartialEq, Eq)]
pub enum Method {
    Options,
    Get,
    Post,
    Put,
    Delete,
    Head,
    Trace,
    Connect,
    Patch,
    Extension(String),
}

/// Whether a text is the name of one of the nine standard methods. Names are
/// case-sensitive.
pub open spec fn is_standard_name(text: Seq<char>) -> bool {
    ||| text == "OPTIONS"@
    ||| text == "GET"@
    ||| text == "POST"@
    ||| text == "PUT"@
    ||| text == "DELETE"@
    ||| text == "HEAD"@
    ||| text == "TRACE"@
    ||| text == "CONNECT"@
    ||| text == "PATCH"@
}

impl Method {
    /// The name of the method, as it stands in a request.
    pub open spec fn text(self) -> Seq<char> {
        match self {
            Method::Options => "OPTIONS"@,
            Method::Get => "GET"@,
            Method::Post => "POST"@,
            Method::Put => "PUT"@,
            Method::Delete => "DELETE"@,
            Method::Head => "HEAD"@,
            Method::Trace => "TRACE"@,
            Method::Connect => "CONNECT"@,
            Method::Patch => "PATCH"@,
            Method::Extension(name) => name@,
        }
    }

    /// An extension holds a valid method text that is none of the standard
    /// names.
    pub open spec fn wf(self) -> bool {
        self matches Method::Extension(name) ==> is_method_bytes(encode_utf8(name@))
            && !is_standard_name(name@)
    }

    /// The name of the method.
    pub fn as_str(&self) -> (text: &str)
        ensures
            text@ == self.text(),
    {
        match self {
            Method::Options => "OPTIONS",
            Method::Get => "GET",
            Method::Post => "POST",
            Method::Put => "PUT",
            Method::Delete => "DELETE",
            Method::Head => "HEAD",
            Method::Trace => "TRACE",
            Method::Connect => "CONNECT",
            Method::Patch => "PATCH",
            Method::Extension(name) => name.as_str(),
        }
    }
}

/// Calls `http::Method::from_str` on the text and takes the name of the method
/// that it returns. The contract claims that it accepts exactly the non-empty
/// texts made of method bytes, and that the name of the method is the text.
#[verifier::external_body]
fn method_name_from_text(text: &str) -> (r: Result<String, http::method::InvalidMethod>)
    ensures
        r is Ok <==> is_method_bytes(text.spec_bytes()),
        r matches Ok(name) ==> name@ == text@,
{
    http::Method::from_str(text).map(|m| m.as_str().to_string())
}

/// Reads a request method.
///
/// A non-empty text made of method bytes is accepted: it gives the standard
/// method of that name, or else an extension that holds the text. Any other
/// text is refused with `Method`.
pub fn parse_method(text: &str) -> (r: Result<Method, Error>)
    ensures
        !is_method_bytes(text.spec_bytes()) ==> r == Err::<Method, Error>(Error::Method),
        is_method_bytes(text.spec_bytes()) ==> (r matches Ok(method) && method.text() == text@
            && method.wf() && (method is Extension <==> !is_standard_name(text@))),
{
    match method_name_from_text(text) {
        Err(_) => Err(Error::Method),
        Ok(name) => Ok(method_of_name(name)),
    }
}

/// The method of a given name.
fn method_of_name(name: String) -> (method: Method)
    requires
        is_method_bytes(encode_utf8(name@)),
    ensures
        method.text() == name@,
        method.wf(),
        method is Extension <==> !is_standard_name(name@),
{
    if same_text(name.as_str(), "OPTIONS") {
        Method::Options
    } else if same_text(name.as_str(), "GET") {
        Method::Get
    } else if same_text(name.as_str(), "POST") {
        Method::Post
    } else if same_text(name.as_str(), "PUT") {
        Method::Put
    } else if same_text(name.as_str(), "DELETE") {
        Method::Delete
    } else if same_text(name.as_str(), "HEAD") {
        Method::Head
    } else if same_text(name.as_str(), "TRACE") {
        Method::Trace
    } else if same_text(name.as_str(), "CONNECT") {
        Method::Connect
    } else if same_text(name.as_str(), "PATCH") {
        Method::Patch
    } else {
        Method::Extension(name)
    }
}

} // verus!
