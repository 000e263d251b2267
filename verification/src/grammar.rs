//! Byte classes of the HTTP tokens that the adapter accepts.

use vstd::prelude::*;
use vstd::utf8::{decode_utf8, encode_utf8};

verus! {

/// Bytes accepted in a request method.
///
/// These are the token characters `!*+-.^_`|~`, digits and letters. The
/// characters `#$%&'` are not among them.
pub open spec fn is_method_byte(b: u8) -> bool {
    ||| b == 0x21  // !
    ||| b == 0x2a  // *
    ||| b == 0x2b  // +
    ||| b == 0x2d  // -
    ||| b == 0x2e  // .
    ||| 0x30 <= b <= 0x39  // 0-9
    ||| 0x41 <= b <= 0x5a  // A-Z
    ||| 0x5e <= b <= 0x7a  // ^ _ ` a-z
    ||| b == 0x7c  // |
    ||| b == 0x7e  // ~
}

/// A method is a non-empty run of method bytes.
pub open spec fn is_method_bytes(bytes: Seq<u8>) -> bool {
    &&& bytes.len() > 0
    &&& forall|i: int| 0 <= i < bytes.len() ==> is_method_byte(#[trigger] bytes[i])
}

/// Bytes accepted in a header name, in either case.
pub open spec fn is_name_byte(b: u8) -> bool {
    ||| 0x21 <= b <= 0x27  // ! " # $ % & '
    ||| b == 0x2a  // *
    ||| b == 0x2b  // +
    ||| b == 0x2d  // -
    ||| b == 0x2e  // .
    ||| 0x30 <= b <= 0x39  // 0-9
    ||| 0x41 <= b <= 0x5a  // A-Z
    ||| 0x5e <= b <= 0x7a  // ^ _ ` a-z
    ||| b == 0x7c  // |
    ||| b == 0x7e  // ~
}

/// The longest header name, in bytes.
pub const MAX_NAME_LEN: usize = 65535;

/// A header name is between one and `MAX_NAME_LEN` name bytes.
pub open spec fn is_name_bytes(bytes: Seq<u8>) -> bool {
    &&& 0 < bytes.len() <= MAX_NAME_LEN
    &&& forall|i: int| 0 <= i < bytes.len() ==> is_name_byte(#[trigger] bytes[i])
}

/// The lower-case form of a byte: upper-case letters move to lower case, every
/// other byte stays.
pub open spec fn lower_byte(b: u8) -> u8 {
    if 0x41 <= b <= 0x5a {
        (b + 0x20) as u8
    } else {
        b
    }
}

/// The lower-case form of a byte string.
pub open spec fn lower_bytes(bytes: Seq<u8>) -> Seq<u8> {
    Seq::new(bytes.len(), |i: int| lower_byte(bytes[i]))
}

/// The form in which a header name is stored: the text in lower case.
pub open spec fn canonical_name(text: Seq<char>) -> Seq<char> {
    decode_utf8(lower_bytes(encode_utf8(text)))
}

/// A header name in the form in which it is stored: valid and in lower case.
pub open spec fn is_canonical_name_bytes(bytes: Seq<u8>) -> bool {
    &&& is_name_bytes(bytes)
    &&& lower_bytes(bytes) == bytes
}

/// Bytes accepted in a header value: everything from the space upwards but
/// DEL, and the tab.
pub open spec fn is_value_byte(b: u8) -> bool {
    (b >= 32 && b != 127) || b == 0x09
}

/// A header value is any run of value bytes, the empty one included.
pub open spec fn is_value_bytes(bytes: Seq<u8>) -> bool {
    forall|i: int| 0 <= i < bytes.len() ==> is_value_byte(#[trigger] bytes[i])
}

/// Bytes of a header value that can be handed to the host as text: visible
/// ASCII, the space and the tab.
pub open spec fn is_visible_byte(b: u8) -> bool {
    (32 <= b < 127) || b == 0x09
}

/// A header value that the host can take as text.
pub open spec fn is_visible_bytes(bytes: Seq<u8>) -> bool {
    forall|i: int| 0 <= i < bytes.len() ==> is_visible_byte(#[trigger] bytes[i])
}

/// The lower-case form of a valid name is a name in its stored form.
pub proof fn lemma_lower_is_canonical(bytes: Seq<u8>)
    requires
        is_name_bytes(bytes),
    ensures
        is_canonical_name_bytes(lower_bytes(bytes)),
{
    let low = lower_bytes(bytes);
    assert forall|i: int| 0 <= i < low.len() implies is_name_byte(#[trigger] low[i]) by {
        assert(is_name_byte(bytes[i]));
    }
    assert(lower_bytes(low) =~= low);
}

} // verus!
