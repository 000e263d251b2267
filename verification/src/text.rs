//! What the byte classes of the grammar mean for text.
//!
//! The grammar is stated over the bytes of a text. Here the same is said
//! character by character: a character below U+0080 is its own byte, and a
//! character from U+0080 on is a run of bytes from 0x80 on.

use vstd::prelude::*;
use vstd::utf8::{encode_scalar, encode_utf8, is_ascii_chars};
use crate::grammar::{
    canonical_name, is_method_byte, is_method_bytes, is_name_byte, is_name_bytes, is_value_byte,
    is_value_bytes, is_visible_byte, is_visible_bytes, lower_byte, lower_bytes, MAX_NAME_LEN,
};

verus! {

/// Whether two texts are the same, character for character.
pub fn same_text(text: &str, other: &str) -> (same: bool)
    ensures
        same == (text@ == other@),
{
    text.to_owned() == other.to_owned()
}

/// A character that may stand in a request method.
pub open spec fn is_method_char(c: char) -> bool {
    (c as u32) < 0x80 && is_method_byte(c as u8)
}

/// A character that may stand in a header name.
pub open spec fn is_name_char(c: char) -> bool {
    (c as u32) < 0x80 && is_name_byte(c as u8)
}

/// A character that may stand in a header value: any but the control
/// characters, of which only the tab is let in.
pub open spec fn is_value_char(c: char) -> bool {
    (c as u32) >= 0x80 || is_value_byte(c as u8)
}

/// A character of a header value that the host can take as text.
pub open spec fn is_visible_char(c: char) -> bool {
    (c as u32) < 0x80 && is_visible_byte(c as u8)
}

/// How a byte of an encoded text relates to the character that it comes
/// from.
pub open spec fn is_byte_of(b: u8, c: char) -> bool {
    if (c as u32) < 0x80 {
        b == c as u8
    } else {
        b >= 0x80
    }
}

/// The bytes of one character: itself below U+0080, else two to four bytes
/// from 0x80 on.
pub proof fn lemma_bytes_of_char(c: char)
    ensures
        encode_scalar(c as u32).len() >= 1,
        forall|k: int|
            0 <= k < encode_scalar(c as u32).len() ==> is_byte_of(
                #[trigger] encode_scalar(c as u32)[k],
                c,
            ),
{
    let s = c as u32;
    let bytes = encode_scalar(s);
    if s < 0x80 {
        assert(s as u8 == (s & 0x7F) as u8) by (bit_vector)
            requires
                s < 0x80,
        ;
    } else {
        assert((0xC0u8 | (((s >> 6) & 0x1F) as u8)) >= 0x80u8) by (bit_vector);
        assert((0xE0u8 | (((s >> 12) & 0x0F) as u8)) >= 0x80u8) by (bit_vector);
        assert((0xF0u8 | (((s >> 18) & 0x7) as u8)) >= 0x80u8) by (bit_vector);
        assert((0x80u8 | ((s & 0x3F) as u8)) >= 0x80u8) by (bit_vector);
        assert((0x80u8 | (((s >> 6) & 0x3F) as u8)) >= 0x80u8) by (bit_vector);
        assert((0x80u8 | (((s >> 12) & 0x3F) as u8)) >= 0x80u8) by (bit_vector);
    }
}

/// Every byte of an encoded text comes from one of its characters.
pub proof fn lemma_byte_has_char(text: Seq<char>, k: int) -> (i: int)
    requires
        0 <= k < encode_utf8(text).len(),
    ensures
        0 <= i < text.len(),
        is_byte_of(encode_utf8(text)[k], text[i]),
    decreases text.len(),
{
    let first = encode_scalar(text[0] as u32);
    let rest = text.drop_first();
    lemma_bytes_of_char(text[0]);
    if k < first.len() {
        assert(encode_utf8(text)[k] == first[k]);
        0
    } else {
        assert(encode_utf8(text)[k] == encode_utf8(rest)[k - first.len()]);
        let i = lemma_byte_has_char(rest, k - first.len());
        assert(rest[i] == text[i + 1]);
        i + 1
    }
}

/// Every character of a text leaves a byte in its encoding.
pub proof fn lemma_char_has_byte(text: Seq<char>, i: int) -> (k: int)
    requires
        0 <= i < text.len(),
    ensures
        0 <= k < encode_utf8(text).len(),
        is_byte_of(encode_utf8(text)[k], text[i]),
    decreases text.len(),
{
    let first = encode_scalar(text[0] as u32);
    let rest = text.drop_first();
    lemma_bytes_of_char(text[0]);
    if i == 0 {
        assert(encode_utf8(text)[0] == first[0]);
        0
    } else {
        assert(rest[i - 1] == text[i]);
        let k = lemma_char_has_byte(rest, i - 1);
        assert(encode_utf8(text)[first.len() + k] == encode_utf8(rest)[k]);
        first.len() + k
    }
}

/// A text is a method exactly when it is not empty and each of its
/// characters is a method character.
pub proof fn lemma_method_text(text: Seq<char>)
    ensures
        is_method_bytes(encode_utf8(text)) <==> text.len() > 0 && forall|i: int|
            0 <= i < text.len() ==> is_method_char(#[trigger] text[i]),
{
    let bytes = encode_utf8(text);
    if is_method_bytes(bytes) {
        assert(text.len() > 0);
        assert forall|i: int| 0 <= i < text.len() implies is_method_char(#[trigger] text[i]) by {
            let k = lemma_char_has_byte(text, i);
            assert(is_method_byte(bytes[k]));
        }
    }
    if text.len() > 0 && forall|i: int| 0 <= i < text.len() ==> is_method_char(#[trigger] text[i]) {
        let k0 = lemma_char_has_byte(text, 0);
        assert forall|k: int| 0 <= k < bytes.len() implies is_method_byte(#[trigger] bytes[k]) by {
            let i = lemma_byte_has_char(text, k);
            assert(is_method_char(text[i]));
        }
    }
}

/// A character below U+0080 is an ASCII character.
proof fn lemma_char_below_0x80_is_ascii(c: char)
    requires
        (c as u32) < 0x80,
    ensures
        '\0' <= c <= '\u{7f}',
{
}

/// A text of name characters is an ASCII text.
proof fn lemma_name_chars_are_ascii(text: Seq<char>)
    requires
        forall|i: int| 0 <= i < text.len() ==> is_name_char(#[trigger] text[i]),
    ensures
        is_ascii_chars(text),
{
    assert forall|i: int| 0 <= i < text.len() implies '\0' <= #[trigger] text[i] <= '\u{7f}' by {
        assert(is_name_char(text[i]));
        lemma_char_below_0x80_is_ascii(text[i]);
    }
}

/// A text is a header name exactly when it has 1 to 65535 characters, each
/// of them a name character.
pub proof fn lemma_name_text(text: Seq<char>)
    ensures
        is_name_bytes(encode_utf8(text)) <==> 0 < text.len() <= MAX_NAME_LEN && forall|i: int|
            0 <= i < text.len() ==> is_name_char(#[trigger] text[i]),
{
    let bytes = encode_utf8(text);
    if is_name_bytes(bytes) {
        assert(text.len() > 0);
        assert forall|i: int| 0 <= i < text.len() implies is_name_char(#[trigger] text[i]) by {
            let k = lemma_char_has_byte(text, i);
            assert(is_name_byte(bytes[k]));
        }
        lemma_name_chars_are_ascii(text);
        vstd::utf8::is_ascii_chars_encode_utf8(text);
    }
    if 0 < text.len() <= MAX_NAME_LEN && forall|i: int|
        0 <= i < text.len() ==> is_name_char(#[trigger] text[i]) {
        lemma_name_chars_are_ascii(text);
        vstd::utf8::is_ascii_chars_encode_utf8(text);
        assert forall|k: int| 0 <= k < bytes.len() implies is_name_byte(#[trigger] bytes[k]) by {
            let i = lemma_byte_has_char(text, k);
            assert(is_name_char(text[i]));
        }
    }
}

/// A text is a header value exactly when each of its characters is a value
/// character. Characters beyond ASCII are among them.
pub proof fn lemma_value_text(text: Seq<char>)
    ensures
        is_value_bytes(encode_utf8(text)) <==> forall|i: int|
            0 <= i < text.len() ==> is_value_char(#[trigger] text[i]),
{
    let bytes = encode_utf8(text);
    if is_value_bytes(bytes) {
        assert forall|i: int| 0 <= i < text.len() implies is_value_char(#[trigger] text[i]) by {
            let k = lemma_char_has_byte(text, i);
            assert(is_value_byte(bytes[k]));
        }
    }
    if forall|i: int| 0 <= i < text.len() ==> is_value_char(#[trigger] text[i]) {
        assert forall|k: int| 0 <= k < bytes.len() implies is_value_byte(#[trigger] bytes[k]) by {
            let i = lemma_byte_has_char(text, k);
            assert(is_value_char(text[i]));
        }
    }
}

/// A text can be handed to the host as a header value exactly when each of
/// its characters is visible ASCII, a space or a tab.
pub proof fn lemma_visible_text(text: Seq<char>)
    ensures
        is_visible_bytes(encode_utf8(text)) <==> forall|i: int|
            0 <= i < text.len() ==> is_visible_char(#[trigger] text[i]),
{
    let bytes = encode_utf8(text);
    if is_visible_bytes(bytes) {
        assert forall|i: int| 0 <= i < text.len() implies is_visible_char(#[trigger] text[i]) by {
            let k = lemma_char_has_byte(text, i);
            assert(is_visible_byte(bytes[k]));
        }
    }
    if forall|i: int| 0 <= i < text.len() ==> is_visible_char(#[trigger] text[i]) {
        assert forall|k: int| 0 <= k < bytes.len() implies is_visible_byte(#[trigger] bytes[k]) by {
            let i = lemma_byte_has_char(text, k);
            assert(is_visible_char(text[i]));
        }
    }
}

/// A control character: below the space but for the tab, or DEL.
pub open spec fn is_control(c: char) -> bool {
    ((c as u32) < 0x20 && (c as u32) != 0x09) || (c as u32) == 0x7f
}

/// The lower-case form of a character: the upper-case letters of ASCII move
/// to lower case, every other character stays.
pub open spec fn lower_char(c: char) -> char {
    if 'A' <= c <= 'Z' {
        ((c as u8) + 0x20) as char
    } else {
        c
    }
}

/// The lower-case form of a text.
pub open spec fn lower_text(text: Seq<char>) -> Seq<char> {
    Seq::new(text.len(), |i: int| lower_char(text[i]))
}

/// A control character is no value character.
proof fn lemma_control_is_no_value_char(c: char)
    requires
        is_control(c),
    ensures
        !is_value_char(c),
{
}

/// A text that holds a control character is no header value.
pub proof fn lemma_control_character_is_refused(text: Seq<char>, at: int)
    requires
        0 <= at < text.len(),
        is_control(text[at]),
    ensures
        !is_value_bytes(encode_utf8(text)),
{
    lemma_value_text(text);
    lemma_control_is_no_value_char(text[at]);
}

/// The empty text is no header name and no method.
pub proof fn lemma_empty_text_is_refused()
    ensures
        !is_name_bytes(encode_utf8(Seq::<char>::empty())),
        !is_method_bytes(encode_utf8(Seq::<char>::empty())),
{
    assert(encode_utf8(Seq::<char>::empty()).len() == 0);
}

/// The lower-case form of a name character is its lower-case byte, and is
/// a name character again.
proof fn lemma_lower_char(c: char)
    requires
        is_name_char(c),
    ensures
        (lower_char(c) as u32) < 0x80,
        lower_char(c) as u8 == lower_byte(c as u8),
        '\0' <= lower_char(c) <= '\u{7f}',
{
}

/// A valid header name is stored as its text in lower case, character for
/// character.
pub proof fn lemma_canonical_name_is_lower_text(text: Seq<char>)
    requires
        is_name_bytes(encode_utf8(text)),
    ensures
        canonical_name(text) == lower_text(text),
{
    lemma_name_text(text);
    lemma_name_chars_are_ascii(text);
    vstd::utf8::is_ascii_chars_encode_utf8(text);
    let low = lower_text(text);
    assert(is_ascii_chars(low)) by {
        assert forall|i: int| 0 <= i < low.len() implies '\0' <= #[trigger] low[i] <= '\u{7f}' by {
            assert(is_name_char(text[i]));
            lemma_lower_char(text[i]);
        }
    }
    vstd::utf8::is_ascii_chars_encode_utf8(low);
    assert(encode_utf8(low) =~= lower_bytes(encode_utf8(text))) by {
        assert forall|i: int| 0 <= i < low.len() implies encode_utf8(low)[i] == lower_bytes(
            encode_utf8(text),
        )[i] by {
            assert(is_name_char(text[i]));
            lemma_lower_char(text[i]);
            assert(low[i] as u8 == encode_utf8(low)[i]);
            assert(text[i] as u8 == encode_utf8(text)[i]);
        }
    }
    vstd::utf8::encode_utf8_decode_utf8(low);
}

} // verus!
