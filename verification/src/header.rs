//! Header names and header values in their standard forms.

use vstd::prelude::*;
use vstd::string::StringSliceAdditionalSpecFns;
use vstd::utf8::encode_utf8;
use crate::error::Error;
use crate::grammar::{
    canonical_name, is_canonical_name_bytes, is_name_bytes, is_value_byte, is_value_bytes,
    is_visible_bytes, lemma_lower_is_canonical, lower_bytes,
};

verus! {

/// `http::header::InvalidHeaderName`, carried through as it comes.
#[verifier::external_type_specification]
#[verifier::external_body]
pub struct ExInvalidHeaderName(http::header::InvalidHeaderName);

/// `http::header::InvalidHeaderValue`, carried through as it comes.
#[verifier::external_type_specification]
#[verifier::external_body]
pub struct ExInvalidHeaderValue(http::header::InvalidHeaderValue);

/// `http::header::ToStrError`, carried through as it comes.
#[verifier::external_type_specification]
#[verifier::external_body]
pub struct ExToStrError(http::header::ToStrError);

/// A header name: valid, and held in lower case.
#[derive(Debug, PartialEq, Eq)]
pub struct HeaderName {
    text: String,
}

/// A header value: a run of value bytes, not necessarily text.
#[derive(Debug, PartialEq, Eq)]
pub struct HeaderValue {
    bytes: Vec<u8>,
}

impl View for HeaderName {
    type V = Seq<char>;

    closed spec fn view(&self) -> Seq<char> {
        self.text@
    }
}

impl View for HeaderValue {
    type V = Seq<u8>;

    closed spec fn view(&self) -> Seq<u8> {
        self.bytes@
    }
}

/// Calls `http::header::HeaderName::try_from` on the text and takes the text
/// of the name that it returns. The contract claims that the call accepts
/// exactly the texts of 1 to 65535 bytes, each of them a name byte, and that
/// the name reads as the text in lower case.
#[verifier::external_body]
fn name_text_of(text: &str) -> (r: Result<String, http::header::InvalidHeaderName>)
    ensures
        r is Ok <==> is_name_bytes(text.spec_bytes()),
        r matches Ok(name) ==> encode_utf8(name@) == lower_bytes(text.spec_bytes()),
{
    http::header::HeaderName::try_from(text).map(|n| n.as_str().to_string())
}

/// Calls `http::header::HeaderValue::try_from` on the text and takes the
/// bytes of the value that it returns. The contract claims that the call
/// accepts exactly the texts whose bytes are all value bytes, and that the
/// value holds the bytes of the text.
#[verifier::external_body]
fn value_bytes_of(text: &str) -> (r: Result<Vec<u8>, http::header::InvalidHeaderValue>)
    ensures
        r is Ok <==> is_value_bytes(text.spec_bytes()),
        r matches Ok(bytes) ==> bytes@ == text.spec_bytes(),
{
    http::header::HeaderValue::try_from(text).map(|v| v.as_bytes().to_vec())
}

/// Calls `http::header::HeaderValue::to_str` on the value that
/// `http::header::HeaderValue::from_bytes` makes of the bytes. The contract
/// claims that for a run of value bytes the call succeeds exactly when every
/// byte is visible ASCII, a space or a tab, and that the text it returns has
/// those bytes.
#[verifier::external_body]
fn visible_text_of(bytes: &[u8]) -> (r: Result<String, http::header::ToStrError>)
    requires
        is_value_bytes(bytes@),
    ensures
        r is Ok <==> is_visible_bytes(bytes@),
        r matches Ok(text) ==> encode_utf8(text@) == bytes@,
{
    let held = http::header::HeaderValue::from_bytes(bytes).unwrap();
    held.to_str().map(|s| s.to_string())
}

impl HeaderName {
    /// What holds of every name: its text is a valid name in lower case.
    #[verifier::type_invariant]
    pub open spec fn holds_canonical_name(self) -> bool {
        is_canonical_name_bytes(encode_utf8(self@))
    }

    /// The name of a text that is a valid name in lower case.
    pub(crate) fn from_canonical(text: String) -> (name: HeaderName)
        requires
            is_canonical_name_bytes(encode_utf8(text@)),
        ensures
            name@ == text@,
    {
        HeaderName { text }
    }

    /// The name as text. It is always a valid name in lower case.
    pub fn as_str(&self) -> (text: &str)
        ensures
            text@ == self@,
            is_canonical_name_bytes(encode_utf8(self@)),
    {
        proof {
            use_type_invariant(self);
        }
        self.text.as_str()
    }
}

impl Clone for HeaderName {
    fn clone(&self) -> (copy: HeaderName)
        ensures
            copy@ == self@,
    {
        proof {
            use_type_invariant(self);
        }
        HeaderName { text: self.text.clone() }
    }
}

impl HeaderValue {
    /// What holds of every value: each of its bytes is a value byte.
    #[verifier::type_invariant]
    pub open spec fn holds_value_bytes(self) -> bool {
        is_value_bytes(self@)
    }

    /// The value of a run of value bytes.
    pub(crate) fn from_valid(bytes: Vec<u8>) -> (value: HeaderValue)
        requires
            is_value_bytes(bytes@),
        ensures
            value@ == bytes@,
    {
        HeaderValue { bytes }
    }

    /// The value from raw bytes: accepted exactly when every byte is a value
    /// byte.
    pub fn from_bytes(bytes: Vec<u8>) -> (r: Result<HeaderValue, Error>)
        ensures
            is_value_bytes(bytes@) ==> (r matches Ok(value) && value@ == bytes@),
            !is_value_bytes(bytes@) ==> r == Err::<HeaderValue, Error>(Error::HeaderValue),
    {
        let mut i: usize = 0;
        while i < bytes.len()
            invariant
                i <= bytes.len(),
                forall|j: int| 0 <= j < i ==> is_value_byte(#[trigger] bytes@[j]),
            decreases bytes.len() - i,
        {
            let b: u8 = bytes[i];
            if !((b >= 32 && b != 127) || b == 9) {
                return Err(Error::HeaderValue);
            }
            i = i + 1;
        }
        Ok(HeaderValue { bytes })
    }

    /// The bytes of the value. Each is a value byte.
    pub fn as_bytes(&self) -> (bytes: &[u8])
        ensures
            bytes@ == self@,
            is_value_bytes(self@),
    {
        proof {
            use_type_invariant(self);
        }
        self.bytes.as_slice()
    }

    /// The value as text for the host.
    ///
    /// Succeeds exactly when every byte is visible ASCII, a space or a tab;
    /// the text then has the bytes of the value. Any other value is refused
    /// with `HeaderValueContent`.
    pub fn to_text(&self) -> (r: Result<String, Error>)
        ensures
            is_visible_bytes(self@) ==> (r matches Ok(text) && encode_utf8(text@) == self@),
            !is_visible_bytes(self@) ==> r == Err::<String, Error>(Error::HeaderValueContent),
    {
        match visible_text_of(self.as_bytes()) {
            Ok(text) => Ok(text),
            Err(_) => Err(Error::HeaderValueContent),
        }
    }
}

impl Clone for HeaderValue {
    fn clone(&self) -> (copy: HeaderValue)
        ensures
            copy@ == self@,
    {
        proof {
            use_type_invariant(self);
        }
        HeaderValue { bytes: self.bytes.clone() }
    }
}

/// Reads a header name.
///
/// A text of 1 to 65535 name bytes is accepted and stored in lower case; any
/// other text is refused with `HeaderName`.
pub fn parse_header_name(text: &str) -> (r: Result<HeaderName, Error>)
    ensures
        is_name_bytes(text.spec_bytes()) ==> (r matches Ok(name) && name@ == canonical_name(text@)
            && encode_utf8(name@) == lower_bytes(text.spec_bytes())),
        !is_name_bytes(text.spec_bytes()) ==> r == Err::<HeaderName, Error>(Error::HeaderName),
{
    match name_text_of(text) {
        Ok(name) => {
            proof {
                lemma_lower_is_canonical(text.spec_bytes());
                vstd::utf8::encode_utf8_decode_utf8(name@);
            }
            Ok(HeaderName { text: name })
        },
        Err(_) => Err(Error::HeaderName),
    }
}

/// Reads a header value.
///
/// A text whose bytes are all value bytes is accepted and stored byte for
/// byte; any other text is refused with `HeaderValue`.
pub fn parse_header_value(text: &str) -> (r: Result<HeaderValue, Error>)
    ensures
        is_value_bytes(text.spec_bytes()) ==> (r matches Ok(value) && value@ == text.spec_bytes()),
        !is_value_bytes(text.spec_bytes()) ==> r == Err::<HeaderValue, Error>(Error::HeaderValue),
{
    match value_bytes_of(text) {
        Ok(bytes) => Ok(HeaderValue { bytes }),
        Err(_) => Err(Error::HeaderValue),
    }
}

} // verus!
