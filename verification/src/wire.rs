//! The wire layout that generated bindings share, over byte buffers of the
//! `bytes` crate.
//!
//! An enum tag is two bytes, most significant first. A byte array is its
//! length as eight bytes, most significant first, followed by its bytes. A
//! text is the byte array of its UTF-8 encoding. Decoding consumes what it
//! reads from the front of the buffer and answers short or malformed input
//! with an error.

use vstd::prelude::*;
use vstd::string::*;
use vstd::utf8::*;
use bytes::{Buf, BufMut, BytesMut};
use crate::text::{decimal_text, push_decimal};

verus! {

/// A failed decode.
#[derive(Clone, Copy, Debug, PartialEq, Eq)]
pub enum WireError {
    /// The tag read is the value of no variant.
    InvalidTag(u16),
    /// The input ended before the value did.
    Truncated,
    /// The bytes of a text are not UTF-8.
    Malformed,
}

/// What a failed decode says to a reader.
pub open spec fn wire_error_text(error: WireError) -> Seq<char> {
    match error {
        WireError::InvalidTag(tag) => "invalid tag: "@ + decimal_text(tag as int),
        WireError::Truncated => "truncated input"@,
        WireError::Malformed => "malformed input"@,
    }
}

impl WireError {
    /// The message of the error; for an unknown tag it names the tag.
    pub fn message(&self) -> (text: String)
        ensures
            text@ == wire_error_text(*self),
    {
        match self {
            WireError::InvalidTag(tag) => {
                let mut text = String::from_str("invalid tag: ");
                push_decimal(&mut text, *tag as i32);
                text
            },
            WireError::Truncated => String::from_str("truncated input"),
            WireError::Malformed => String::from_str("malformed input"),
        }
    }
}

// ---------------------------------------------------------------------------
// Numbers as bytes
// ---------------------------------------------------------------------------

/// The number that a run of bytes spells in base 256, most significant byte
/// first.
pub open spec fn be_value(bytes: Seq<u8>) -> nat
    decreases bytes.len(),
{
    if bytes.len() == 0 {
        0
    } else {
        be_value(bytes.drop_last()) * 256 + bytes.last() as nat
    }
}

/// The `width` low-order base-256 digits of `n`, most significant first.
pub open spec fn be_bytes(n: nat, width: nat) -> Seq<u8>
    decreases width,
{
    if width == 0 {
        Seq::empty()
    } else {
        be_bytes(n / 256, (width - 1) as nat).push((n % 256) as u8)
    }
}

/// The number of values that `width` bytes can spell.
pub open spec fn be_limit(width: nat) -> nat
    decreases width,
{
    if width == 0 {
        1
    } else {
        256 * be_limit((width - 1) as nat)
    }
}

pub proof fn lemma_be_bytes_len(n: nat, width: nat)
    ensures
        be_bytes(n, width).len() == width,
    decreases width,
{
    if width > 0 {
        lemma_be_bytes_len(n / 256, (width - 1) as nat);
    }
}

/// A number that fits in `width` bytes is read back from its bytes.
pub proof fn lemma_be_value_of_bytes(n: nat, width: nat)
    requires
        n < be_limit(width),
    ensures
        be_value(be_bytes(n, width)) == n,
    decreases width,
{
    if width > 0 {
        let bytes = be_bytes(n, width);
        let shorter = be_bytes(n / 256, (width - 1) as nat);
        lemma_be_value_of_bytes(n / 256, (width - 1) as nat);
        assert(bytes.drop_last() =~= shorter);
        assert(bytes.last() == (n % 256) as u8);
    }
}

/// A run of bytes is written back from the number it spells.
pub proof fn lemma_be_bytes_of_value(bytes: Seq<u8>)
    ensures
        be_value(bytes) < be_limit(bytes.len()),
        be_bytes(be_value(bytes), bytes.len()) == bytes,
    decreases bytes.len(),
{
    if bytes.len() > 0 {
        let shorter = bytes.drop_last();
        lemma_be_bytes_of_value(shorter);
        let n = be_value(bytes);
        assert(n / 256 == be_value(shorter));
        assert(n % 256 == bytes.last() as nat);
        assert(be_bytes(n, bytes.len()) =~= bytes);
    }
}

pub proof fn lemma_be_limits()
    ensures
        be_limit(2) == 0x1_0000,
        be_limit(8) == 0x1_0000_0000_0000_0000,
{
    reveal_with_fuel(be_limit, 9);
}

// ---------------------------------------------------------------------------
// Byte buffers
// ---------------------------------------------------------------------------

#[verifier::external_type_specification]
#[verifier::external_body]
pub struct ExBytesMut(bytes::BytesMut);

/// The bytes that a buffer holds, front first.
pub uninterp spec fn buffer_bytes(buffer: bytes::BytesMut) -> Seq<u8>;

/// `BytesMut::new`: the buffer made holds no bytes.
pub assume_specification[ bytes::BytesMut::new ]() -> (buffer: bytes::BytesMut)
    ensures
        buffer_bytes(buffer) == Seq::<u8>::empty(),
;

/// `BytesMut::with_capacity`: the buffer made holds no bytes, whatever room
/// was asked for. A capacity beyond `isize::MAX` is left out, since the
/// allocation behind it refuses one.
pub assume_specification[ bytes::BytesMut::with_capacity ](capacity: usize) -> (buffer:
    bytes::BytesMut)
    requires
        capacity <= isize::MAX,
    ensures
        buffer_bytes(buffer) == Seq::<u8>::empty(),
;

/// `BytesMut::len`: the number of bytes held.
pub assume_specification[ bytes::BytesMut::len ](buffer: &bytes::BytesMut) -> (len: usize)
    ensures
        len == buffer_bytes(*buffer).len(),
;

/// `Buf::get_u8` on a `BytesMut`: hands out the front byte and drops it from
/// the buffer. It panics on an empty buffer, which `requires` leaves out.
#[verifier::external_body]
fn get_u8(input: &mut BytesMut) -> (byte: u8)
    requires
        buffer_bytes(*old(input)).len() >= 1,
    ensures
        byte == buffer_bytes(*old(input))[0],
        buffer_bytes(*final(input)) == buffer_bytes(*old(input)).skip(1),
{
    input.get_u8()
}

/// `Buf::get_u16` on a `BytesMut`: reads the two front bytes as a number,
/// most significant byte first, and drops them from the buffer. It panics on
/// fewer than two bytes, which `requires` leaves out.
#[verifier::external_body]
fn get_u16(input: &mut BytesMut) -> (value: u16)
    requires
        buffer_bytes(*old(input)).len() >= 2,
    ensures
        value == be_value(buffer_bytes(*old(input)).take(2)),
        buffer_bytes(*final(input)) == buffer_bytes(*old(input)).skip(2),
{
    input.get_u16()
}

/// `Buf::get_u64` on a `BytesMut`: reads the eight front bytes as a number,
/// most significant byte first, and drops them from the buffer. It panics on
/// fewer than eight bytes, which `requires` leaves out.
#[verifier::external_body]
fn get_u64(input: &mut BytesMut) -> (value: u64)
    requires
        buffer_bytes(*old(input)).len() >= 8,
    ensures
        value == be_value(buffer_bytes(*old(input)).take(8)),
        buffer_bytes(*final(input)) == buffer_bytes(*old(input)).skip(8),
{
    input.get_u64()
}

/// `BufMut::put_u8` on a `BytesMut`: adds the byte at the back. A buffer
/// cannot grow beyond `isize::MAX` bytes, which `requires` leaves out.
#[verifier::external_body]
fn put_u8(out: &mut BytesMut, byte: u8)
    requires
        buffer_bytes(*old(out)).len() + 1 <= isize::MAX,
    ensures
        buffer_bytes(*final(out)) == buffer_bytes(*old(out)).push(byte),
{
    out.put_u8(byte)
}

/// `BufMut::put_u16` on a `BytesMut`: adds the two bytes of the number at the
/// back, most significant byte first. A buffer cannot grow beyond
/// `isize::MAX` bytes, which `requires` leaves out.
#[verifier::external_body]
fn put_u16(out: &mut BytesMut, value: u16)
    requires
        buffer_bytes(*old(out)).len() + 2 <= isize::MAX,
    ensures
        buffer_bytes(*final(out)) == buffer_bytes(*old(out)) + be_bytes(value as nat, 2),
{
    out.put_u16(value)
}

/// `BufMut::put_u64` on a `BytesMut`: adds the eight bytes of the number at
/// the back, most significant byte first. A buffer cannot grow beyond
/// `isize::MAX` bytes, which `requires` leaves out.
#[verifier::external_body]
fn put_u64(out: &mut BytesMut, value: u64)
    requires
        buffer_bytes(*old(out)).len() + 8 <= isize::MAX,
    ensures
        buffer_bytes(*final(out)) == buffer_bytes(*old(out)) + be_bytes(value as nat, 8),
{
    out.put_u64(value)
}

/// `Extend::extend` of a `BytesMut` by the bytes of another: adds them at the
/// back, in order. A buffer cannot grow beyond `isize::MAX` bytes, which
/// `requires` leaves out.
#[verifier::external_body]
pub(crate) fn extend(out: &mut BytesMut, part: BytesMut)
    requires
        buffer_bytes(*old(out)).len() + buffer_bytes(part).len() <= isize::MAX,
    ensures
        buffer_bytes(*final(out)) == buffer_bytes(*old(out)) + buffer_bytes(part),
{
    out.extend(part)
}

/// `String::from_utf8`: succeeds exactly on bytes that are valid UTF-8, and
/// the string made spells the characters that those bytes encode.
#[verifier::external_body]
fn string_from_utf8(bytes: Vec<u8>) -> (text: Option<String>)
    ensures
        text is Some <==> valid_utf8(bytes@),
        text matches Some(s) ==> s@ == decode_utf8(bytes@),
{
    match String::from_utf8(bytes) {
        Ok(text) => Some(text),
        Err(_) => None,
    }
}

// ---------------------------------------------------------------------------
// The layout
// ---------------------------------------------------------------------------

/// The bytes of an enum tag.
pub open spec fn encode_tag(tag: u16) -> Seq<u8> {
    be_bytes(tag as nat, 2)
}

/// Reads a tag from the front of `input`: the tag or the failure, and the
/// input that is left.
pub open spec fn decode_tag(input: Seq<u8>) -> (Result<u16, WireError>, Seq<u8>) {
    if input.len() < 2 {
        (Err(WireError::Truncated), input)
    } else {
        (Ok(be_value(input.take(2)) as u16), input.skip(2))
    }
}

/// The bytes of a byte array: its length, and its bytes.
pub open spec fn encode_byte_array(content: Seq<u8>) -> Seq<u8> {
    be_bytes(content.len(), 8) + content
}

/// Reads a byte array from the front of `input`: the array or the failure,
/// and the input that is left. A length that the input cannot cover fails
/// after the length was read.
pub open spec fn decode_byte_array(input: Seq<u8>) -> (Result<Seq<u8>, WireError>, Seq<u8>) {
    if input.len() < 8 {
        (Err(WireError::Truncated), input)
    } else {
        let len = be_value(input.take(8));
        let rest = input.skip(8);
        if len > rest.len() {
            (Err(WireError::Truncated), rest)
        } else {
            (Ok(rest.take(len as int)), rest.skip(len as int))
        }
    }
}

/// The bytes of a text: the byte array of its UTF-8 encoding.
pub open spec fn encode_text(text: Seq<char>) -> Seq<u8> {
    encode_byte_array(encode_utf8(text))
}

/// Reads a text from the front of `input`: the text or the failure, and the
/// input that is left.
pub open spec fn decode_text(input: Seq<u8>) -> (Result<Seq<char>, WireError>, Seq<u8>) {
    match decode_byte_array(input) {
        (Err(e), rest) => (Err(e), rest),
        (Ok(bytes), rest) => if valid_utf8(bytes) {
            (Ok(decode_utf8(bytes)), rest)
        } else {
            (Err(WireError::Malformed), rest)
        },
    }
}

/// A tag is read back from its bytes, and what follows them is left.
pub proof fn lemma_tag_round_trip(tag: u16, rest: Seq<u8>)
    ensures
        decode_tag(encode_tag(tag) + rest) == (Ok::<u16, WireError>(tag), rest),
{
    let bytes = encode_tag(tag);
    lemma_be_bytes_len(tag as nat, 2);
    lemma_be_limits();
    lemma_be_value_of_bytes(tag as nat, 2);
    assert((bytes + rest).take(2) =~= bytes);
    assert((bytes + rest).skip(2) =~= rest);
}

/// A byte array is read back from its bytes, and what follows them is left.
pub proof fn lemma_byte_array_round_trip(content: Seq<u8>, rest: Seq<u8>)
    requires
        content.len() <= u64::MAX,
    ensures
        decode_byte_array(encode_byte_array(content) + rest) == (
            Ok::<Seq<u8>, WireError>(content),
            rest,
        ),
{
    let prefix = be_bytes(content.len(), 8);
    let input = encode_byte_array(content) + rest;
    lemma_be_bytes_len(content.len(), 8);
    lemma_be_limits();
    lemma_be_value_of_bytes(content.len(), 8);
    assert(input.take(8) =~= prefix);
    assert(input.skip(8) =~= content + rest);
    assert((content + rest).take(content.len() as int) =~= content);
    assert((content + rest).skip(content.len() as int) =~= rest);
}

/// A text is read back from its bytes, and what follows them is left.
pub proof fn lemma_text_round_trip(text: Seq<char>, rest: Seq<u8>)
    requires
        encode_utf8(text).len() <= u64::MAX,
    ensures
        decode_text(encode_text(text) + rest) == (Ok::<Seq<char>, WireError>(text), rest),
{
    lemma_byte_array_round_trip(encode_utf8(text), rest);
    encode_utf8_valid_utf8(text);
    encode_utf8_decode_utf8(text);
}

/// Whatever decodes as a tag is the encoding of that tag followed by the
/// input that was left.
pub proof fn lemma_tag_decode_exact(input: Seq<u8>)
    ensures
        decode_tag(input).0 matches Ok(tag) ==> encode_tag(tag) + decode_tag(input).1 == input,
{
    if input.len() >= 2 {
        lemma_be_bytes_of_value(input.take(2));
        lemma_be_limits();
        assert(input.take(2) + input.skip(2) =~= input);
    }
}

/// Whatever decodes as a byte array is the encoding of that array followed
/// by the input that was left.
pub proof fn lemma_byte_array_decode_exact(input: Seq<u8>)
    ensures
        decode_byte_array(input).0 matches Ok(content) ==> encode_byte_array(content)
            + decode_byte_array(input).1 == input,
{
    if input.len() >= 8 {
        let len = be_value(input.take(8));
        let rest = input.skip(8);
        lemma_be_bytes_of_value(input.take(8));
        if len <= rest.len() {
            assert(input.take(8) + rest.take(len as int) + rest.skip(len as int) =~= input);
        }
    }
}

/// Whatever decodes as a text is the encoding of that text followed by the
/// input that was left.
pub proof fn lemma_text_decode_exact(input: Seq<u8>)
    ensures
        decode_text(input).0 matches Ok(text) ==> encode_text(text) + decode_text(input).1
            == input,
{
    lemma_byte_array_decode_exact(input);
    match decode_byte_array(input).0 {
        Ok(data) => {
            if valid_utf8(data) {
                decode_utf8_encode_utf8(data);
            }
        },
        Err(_) => {},
    }
}

// ---------------------------------------------------------------------------
// Codecs
// ---------------------------------------------------------------------------

/// Writes a tag into a fresh buffer.
pub fn serialize_tag(tag: u16) -> (out: BytesMut)
    ensures
        buffer_bytes(out) == encode_tag(tag),
{
    let mut out = BytesMut::with_capacity(2);
    put_u16(&mut out, tag);
    assert(buffer_bytes(out) =~= encode_tag(tag));
    out
}

/// Reads a tag from the front of `input`.
///
/// On fewer than two bytes nothing is consumed and the decode fails.
pub fn deserialize_tag(input: &mut BytesMut) -> (tag: Result<u16, WireError>)
    ensures
        (tag, buffer_bytes(*final(input))) == decode_tag(buffer_bytes(*old(input))),
{
    if input.len() < 2 {
        return Err(WireError::Truncated);
    }
    Ok(get_u16(input))
}

/// Writes a byte array into a fresh buffer.
pub fn serialize_byte_array(content: &Vec<u8>) -> (out: BytesMut)
    requires
        content@.len() + 8 <= isize::MAX,
    ensures
        buffer_bytes(out) == encode_byte_array(content@),
{
    let mut out = BytesMut::new();
    put_u64(&mut out, content.len() as u64);
    let ghost prefix = buffer_bytes(out);
    proof {
        lemma_be_bytes_len(content@.len(), 8);
        assert(prefix =~= be_bytes(content@.len(), 8));
    }
    let mut i: usize = 0;
    while i < content.len()
        invariant
            i <= content.len(),
            content@.len() + 8 <= isize::MAX,
            prefix.len() == 8,
            buffer_bytes(out) == prefix + content@.take(i as int),
        decreases content.len() - i,
    {
        put_u8(&mut out, content[i]);
        assert(buffer_bytes(out) =~= prefix + content@.take(i + 1));
        i += 1;
    }
    assert(content@.take(content.len() as int) =~= content@);
    out
}

/// Reads a byte array from the front of `input`.
pub fn deserialize_byte_array(input: &mut BytesMut) -> (content: Result<Vec<u8>, WireError>)
    ensures
        buffer_bytes(*final(input)) == decode_byte_array(buffer_bytes(*old(input))).1,
        match decode_byte_array(buffer_bytes(*old(input))).0 {
            Ok(bytes) => content is Ok && content->Ok_0@ == bytes,
            Err(e) => content is Err && content->Err_0 == e,
        },
{
    if input.len() < 8 {
        return Err(WireError::Truncated);
    }
    let len = get_u64(input);
    if len > input.len() as u64 {
        return Err(WireError::Truncated);
    }
    let count = len as usize;
    let ghost rest = buffer_bytes(*input);
    let mut content: Vec<u8> = Vec::new();
    let mut i: usize = 0;
    while i < count
        invariant
            i <= count <= rest.len(),
            content@ == rest.take(i as int),
            buffer_bytes(*input) == rest.skip(i as int),
        decreases count - i,
    {
        let byte = get_u8(input);
        content.push(byte);
        proof {
            assert(content@ =~= rest.take(i + 1));
            assert(buffer_bytes(*input) =~= rest.skip(i + 1));
        }
        i += 1;
    }
    Ok(content)
}

/// Writes a text into a fresh buffer.
pub fn serialize_text(text: &String) -> (out: BytesMut)
    requires
        encode_utf8(text@).len() + 8 <= isize::MAX,
    ensures
        buffer_bytes(out) == encode_text(text@),
{
    let bytes = text.as_str().as_bytes();
    let mut out = BytesMut::new();
    put_u64(&mut out, bytes.len() as u64);
    let ghost prefix = buffer_bytes(out);
    proof {
        lemma_be_bytes_len(bytes@.len(), 8);
        assert(prefix =~= be_bytes(bytes@.len(), 8));
    }
    let mut i: usize = 0;
    while i < bytes.len()
        invariant
            i <= bytes.len(),
            bytes@.len() + 8 <= isize::MAX,
            prefix.len() == 8,
            buffer_bytes(out) == prefix + bytes@.take(i as int),
        decreases bytes.len() - i,
    {
        put_u8(&mut out, bytes[i]);
        assert(buffer_bytes(out) =~= prefix + bytes@.take(i + 1));
        i += 1;
    }
    assert(bytes@.take(bytes.len() as int) =~= bytes@);
    out
}

/// Reads a text from the front of `input`.
pub fn deserialize_text(input: &mut BytesMut) -> (text: Result<String, WireError>)
    ensures
        buffer_bytes(*final(input)) == decode_text(buffer_bytes(*old(input))).1,
        match decode_text(buffer_bytes(*old(input))).0 {
            Ok(chars) => text is Ok && text->Ok_0@ == chars,
            Err(e) => text is Err && text->Err_0 == e,
        },
{
    match deserialize_byte_array(input) {
        Err(e) => Err(e),
        Ok(bytes) => match string_from_utf8(bytes) {
            Some(text) => Ok(text),
            None => Err(WireError::Malformed),
        },
    }
}

} // verus!
