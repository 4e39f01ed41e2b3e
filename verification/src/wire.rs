//! Protobuf wire primitives: varints, field keys, string fields and the
//! skipping of unknown fields.
//!
//! The bytes themselves are read and written by `prost`; this module states
//! what those calls do, as functions on byte sequences, and hands the calls to
//! the rest of the crate with these statements as their contracts.

use vstd::prelude::*;
use vstd::utf8::*;

verus! {

/// The smallest field number a key may carry.
pub const MIN_TAG: u32 = 1;

/// The largest field number a key may carry: 29 bits.
pub const MAX_TAG: u32 = 0x1FFF_FFFF;

/// The most bytes a varint may take.
pub const MAX_VARINT_LEN: usize = 10;

/// How a field's payload is laid out on the wire.
#[derive(Clone, Copy, Debug, PartialEq, Eq, Structural)]
pub enum WireType {
    Varint,
    SixtyFourBit,
    LengthDelimited,
    StartGroup,
    EndGroup,
    ThirtyTwoBit,
}

impl WireType {
    /// The number that stands for this wire type in the low three bits of a key.
    pub open spec fn number(self) -> nat {
        match self {
            WireType::Varint => 0,
            WireType::SixtyFourBit => 1,
            WireType::LengthDelimited => 2,
            WireType::StartGroup => 3,
            WireType::EndGroup => 4,
            WireType::ThirtyTwoBit => 5,
        }
    }

    /// The wire type that a number stands for, if any.
    pub open spec fn of_number(number: nat) -> Option<WireType> {
        if number == 0 {
            Some(WireType::Varint)
        } else if number == 1 {
            Some(WireType::SixtyFourBit)
        } else if number == 2 {
            Some(WireType::LengthDelimited)
        } else if number == 3 {
            Some(WireType::StartGroup)
        } else if number == 4 {
            Some(WireType::EndGroup)
        } else if number == 5 {
            Some(WireType::ThirtyTwoBit)
        } else {
            None
        }
    }
}

/// The LEB128 encoding of `value`: seven bits per byte, lowest first, the top
/// bit set on every byte but the last.
pub open spec fn varint(value: nat) -> Seq<u8>
    decreases value,
{
    if value < 0x80 {
        seq![value as u8]
    } else {
        seq![(value % 0x80 + 0x80) as u8] + varint(value / 0x80)
    }
}

/// The varint at the head of `bytes`, read with at most `room` bytes: its
/// value and its length. A varint that does not end within `room` bytes, or
/// within `bytes`, is none; so is one whose last permitted byte is above 1.
pub open spec fn varint_within(bytes: Seq<u8>, room: nat) -> Option<(nat, nat)>
    decreases room,
{
    if room == 0 || bytes.len() == 0 {
        None
    } else if bytes[0] < 0x80 {
        if room == 1 && bytes[0] >= 2 {
            None
        } else {
            Some((bytes[0] as nat, 1nat))
        }
    } else {
        match varint_within(bytes.skip(1), (room - 1) as nat) {
            Some((high, len)) => Some(((bytes[0] - 0x80 + 0x80 * high) as nat, len + 1)),
            None => None,
        }
    }
}

/// The varint at the head of `bytes`: its value, which fits 64 bits, and its
/// length, which is at most ten.
pub open spec fn varint_prefix(bytes: Seq<u8>) -> Option<(nat, nat)> {
    varint_within(bytes, MAX_VARINT_LEN as nat)
}

/// The bytes of a field key.
pub open spec fn key(tag: u32, wire_type: WireType) -> Seq<u8> {
    varint(tag as nat * 8 + wire_type.number())
}

/// The field key at the head of `bytes`: field number, wire type and length.
pub open spec fn key_prefix(bytes: Seq<u8>) -> Option<(u32, WireType, nat)> {
    match varint_prefix(bytes) {
        Some((value, len)) => match WireType::of_number(value % 8) {
            Some(wire_type) => if value <= u32::MAX && value / 8 >= MIN_TAG {
                Some(((value / 8) as u32, wire_type, len))
            } else {
                None
            },
            None => None,
        },
        None => None,
    }
}

/// The payload of a string field: the length of its text in bytes, then the
/// text in UTF-8.
pub open spec fn string_payload(text: Seq<char>) -> Seq<u8> {
    varint(encode_utf8(text).len()) + encode_utf8(text)
}

/// The string payload at the head of `bytes`: the text and the length of the
/// whole payload.
pub open spec fn string_prefix(bytes: Seq<u8>) -> Option<(Seq<char>, nat)> {
    match varint_prefix(bytes) {
        Some((size, len)) => {
            let body = bytes.subrange(len as int, (len + size) as int);
            if len + size <= bytes.len() && valid_utf8(body) {
                Some((decode_utf8(body), len + size))
            } else {
                None
            }
        },
        None => None,
    }
}

/// The values a varint of at most `room` bytes can hold lie below this bound:
/// seven bits for every byte but the last permitted one, which adds one bit.
pub open spec fn varint_bound(room: nat) -> nat
    decreases room,
{
    if room <= 1 {
        2
    } else {
        0x80 * varint_bound((room - 1) as nat)
    }
}

/// The bound is never below that of a single byte.
pub proof fn lemma_varint_bound_floor(room: nat)
    ensures
        varint_bound(room) >= 2,
    decreases room,
{
    if room > 1 {
        lemma_varint_bound_floor((room - 1) as nat);
    }
}

/// A varint takes at least one byte.
pub proof fn lemma_varint_len(value: nat)
    ensures
        varint(value).len() >= 1,
    decreases value,
{
    if value >= 0x80 {
        lemma_varint_len(value / 0x80);
    }
}

/// A varint that is read takes at least one byte and no more than are there
/// or are permitted, and its value lies below the bound of the room it had.
pub proof fn lemma_varint_within_bounds(bytes: Seq<u8>, room: nat)
    ensures
        match varint_within(bytes, room) {
            Some((value, len)) => 1 <= len <= bytes.len() && len <= room && value < varint_bound(
                room,
            ),
            None => true,
        },
    decreases room,
{
    lemma_varint_bound_floor(room);
    if room != 0 && bytes.len() != 0 && bytes[0] >= 0x80 {
        lemma_varint_within_bounds(bytes.skip(1), (room - 1) as nat);
    }
}

/// A varint read from a buffer fits 64 bits and lies within the buffer.
pub proof fn lemma_varint_prefix_bounds(bytes: Seq<u8>)
    ensures
        match varint_prefix(bytes) {
            Some((value, len)) => 1 <= len <= bytes.len() && len <= MAX_VARINT_LEN && value
                <= u64::MAX,
            None => true,
        },
{
    lemma_varint_within_bounds(bytes, MAX_VARINT_LEN as nat);
    reveal_with_fuel(varint_bound, 11);
}

/// Reading with room for `room` bytes gives back any value below the bound of
/// that room from its encoding, whatever follows it.
pub proof fn lemma_varint_within_varint(value: nat, room: nat, rest: Seq<u8>)
    requires
        room >= 1,
        value < varint_bound(room),
    ensures
        varint_within(varint(value) + rest, room) == Some((value, varint(value).len())),
    decreases room,
{
    let bytes = varint(value) + rest;
    if value >= 0x80 {
        assert(room >= 2);
        assert(bytes.skip(1) =~= varint(value / 0x80) + rest);
        lemma_varint_within_varint(value / 0x80, (room - 1) as nat, rest);
    }
}

/// Every 64-bit value is read back from its varint, whatever follows it.
pub proof fn lemma_varint_round_trip(value: nat, rest: Seq<u8>)
    requires
        value <= u64::MAX,
    ensures
        varint_prefix(varint(value) + rest) == Some((value, varint(value).len())),
{
    reveal_with_fuel(varint_bound, 11);
    lemma_varint_within_varint(value, MAX_VARINT_LEN as nat, rest);
}

/// A key that is read takes at least one byte of the buffer.
pub proof fn lemma_key_prefix_bounds(bytes: Seq<u8>)
    ensures
        match key_prefix(bytes) {
            Some((tag, wire_type, len)) => 1 <= len <= bytes.len() && tag >= MIN_TAG,
            None => true,
        },
{
    lemma_varint_prefix_bounds(bytes);
}

/// Every key with a field number in range is read back from its bytes,
/// whatever follows it.
pub proof fn lemma_key_round_trip(tag: u32, wire_type: WireType, rest: Seq<u8>)
    requires
        MIN_TAG <= tag <= MAX_TAG,
    ensures
        key_prefix(key(tag, wire_type) + rest) == Some((tag, wire_type, key(tag, wire_type).len())),
{
    lemma_varint_round_trip(tag as nat * 8 + wire_type.number(), rest);
}

/// A string payload that is read lies within the buffer, and its text in
/// UTF-8 is the bytes that follow its length.
pub proof fn lemma_string_prefix_bounds(bytes: Seq<u8>)
    ensures
        match string_prefix(bytes) {
            Some((text, len)) => 1 <= len <= bytes.len() && encode_utf8(text).len() < len,
            None => true,
        },
{
    lemma_varint_prefix_bounds(bytes);
    if let Some((size, len)) = varint_prefix(bytes) {
        let body = bytes.subrange(len as int, (len + size) as int);
        if len + size <= bytes.len() && valid_utf8(body) {
            decode_utf8_encode_utf8(body);
        }
    }
}

/// Every text whose UTF-8 length fits 64 bits is read back from its string
/// payload, whatever follows it.
pub proof fn lemma_string_round_trip(text: Seq<char>, rest: Seq<u8>)
    requires
        encode_utf8(text).len() <= u64::MAX,
    ensures
        string_prefix(string_payload(text) + rest) == Some((text, string_payload(text).len())),
{
    let body = encode_utf8(text);
    let head = varint(body.len());
    let bytes = string_payload(text) + rest;
    assert(bytes =~= head + (body + rest));
    lemma_varint_round_trip(body.len(), body + rest);
    assert(bytes.subrange(head.len() as int, (head.len() + body.len()) as int) =~= body);
    encode_utf8_valid_utf8(text);
    encode_utf8_decode_utf8(text);
}

/// What `skip_field` of `prost` makes of a field's payload at the head of
/// `bytes`, for a field with the wire type of the given number and the given
/// field number, under a fresh decode context: the length of the payload, or
/// none where the payload is cut short or ill-formed.
pub uninterp spec fn skipped_prefix(wire_number: nat, tag: u32, bytes: Seq<u8>) -> Option<nat>;

/// The error type of `prost`'s decoding functions.
#[verifier::external_type_specification]
#[verifier::external_body]
pub struct ExProstDecodeError(prost::DecodeError);

/// Calls `prost::encoding::encode_varint` on a vector, which grows as needed:
/// the LEB128 bytes of `value` are appended and nothing else changes.
#[verifier::external_body]
pub(crate) fn put_varint(value: u64, buf: &mut Vec<u8>)
    ensures
        final(buf)@ == old(buf)@ + varint(value as nat),
{
    prost::encoding::encode_varint(value, buf)
}

/// Calls `prost::encoding::encode_key` on a vector: the key, the varint of the
/// field number shifted left by three bits with the wire type's number in the
/// low bits, is appended. The field number must lie in the range that the
/// encoding allows.
#[verifier::external_body]
pub(crate) fn put_key(tag: u32, wire_type: WireType, buf: &mut Vec<u8>)
    requires
        MIN_TAG <= tag <= MAX_TAG,
    ensures
        final(buf)@ == old(buf)@ + key(tag, wire_type),
{
    let outside = match wire_type {
        WireType::Varint => prost::encoding::WireType::Varint,
        WireType::SixtyFourBit => prost::encoding::WireType::SixtyFourBit,
        WireType::LengthDelimited => prost::encoding::WireType::LengthDelimited,
        WireType::StartGroup => prost::encoding::WireType::StartGroup,
        WireType::EndGroup => prost::encoding::WireType::EndGroup,
        WireType::ThirtyTwoBit => prost::encoding::WireType::ThirtyTwoBit,
    };
    prost::encoding::encode_key(tag, outside, buf)
}

/// Calls `prost::encoding::string::encode` on a vector: a length-delimited key
/// with the given field number is appended, then the text's length in bytes as
/// a varint, then the text's bytes.
#[verifier::external_body]
pub(crate) fn put_string(tag: u32, text: &String, buf: &mut Vec<u8>)
    requires
        MIN_TAG <= tag <= MAX_TAG,
    ensures
        final(buf)@ == old(buf)@ + key(tag, WireType::LengthDelimited) + string_payload(text@),
{
    prost::encoding::string::encode(tag, text, buf)
}

/// Calls `prost::encoding::decode_varint` on a slice. It reads up to ten
/// bytes, stops at the first one below 0x80 and adds up the low seven bits of
/// each, lowest first; it fails where the slice ends before such a byte,
/// where none is among the first ten, and where the tenth is above 1. On
/// success the value comes back with the bytes that follow the varint.
#[verifier::external_body]
pub(crate) fn take_varint<'a>(bytes: &'a [u8]) -> (r: Result<(u64, &'a [u8]), prost::DecodeError>)
    ensures
        match r {
            Ok((value, rest)) => varint_prefix(bytes@) matches Some((v, len)) && value == v
                && rest@ == bytes@.skip(len as int),
            Err(_) => varint_prefix(bytes@) is None,
        },
{
    let mut rest = bytes;
    let value = prost::encoding::decode_varint(&mut rest)?;
    Ok((value, rest))
}

/// Calls `prost::encoding::decode_key` on a slice. It reads a varint and
/// fails where there is none, where the varint is above `u32::MAX`, where its
/// low three bits are 6 or 7, and where the rest of it, the field number, is
/// 0. On success the field number and the wire type come back with the bytes
/// that follow the key.
#[verifier::external_body]
pub(crate) fn take_key<'a>(bytes: &'a [u8]) -> (r: Result<
    (u32, WireType, &'a [u8]),
    prost::DecodeError,
>)
    ensures
        match r {
            Ok((tag, wire_type, rest)) => key_prefix(bytes@) matches Some((t, w, len)) && tag == t
                && wire_type == w && rest@ == bytes@.skip(len as int),
            Err(_) => key_prefix(bytes@) is None,
        },
{
    let mut rest = bytes;
    let (tag, outside) = prost::encoding::decode_key(&mut rest)?;
    let wire_type = match outside {
        prost::encoding::WireType::Varint => WireType::Varint,
        prost::encoding::WireType::SixtyFourBit => WireType::SixtyFourBit,
        prost::encoding::WireType::LengthDelimited => WireType::LengthDelimited,
        prost::encoding::WireType::StartGroup => WireType::StartGroup,
        prost::encoding::WireType::EndGroup => WireType::EndGroup,
        prost::encoding::WireType::ThirtyTwoBit => WireType::ThirtyTwoBit,
    };
    Ok((tag, wire_type, rest))
}

/// Calls `prost::encoding::string::merge` on a slice, for a length-delimited
/// field and into an empty string. It reads the length as a varint, takes
/// that many bytes and checks that they are UTF-8; it fails where the varint
/// does, where fewer bytes are left than the length says, and where the bytes
/// are not UTF-8. On success the text comes back with the bytes that follow
/// the payload.
#[verifier::external_body]
pub(crate) fn take_string<'a>(bytes: &'a [u8]) -> (r: Result<(String, &'a [u8]), prost::DecodeError>)
    ensures
        match r {
            Ok((text, rest)) => string_prefix(bytes@) matches Some((t, len)) && text@ == t
                && rest@ == bytes@.skip(len as int),
            Err(_) => string_prefix(bytes@) is None,
        },
{
    let mut rest = bytes;
    let mut text = String::new();
    let wire_type = prost::encoding::WireType::LengthDelimited;
    let context = prost::encoding::DecodeContext::default();
    prost::encoding::string::merge(wire_type, &mut text, &mut rest, context)?;
    Ok((text, rest))
}

/// Calls `prost::encoding::skip_field` on a slice, under a fresh decode
/// context. The function only ever moves forward in the slice: on success the
/// bytes that follow the skipped payload come back, a suffix of `bytes`.
#[verifier::external_body]
pub(crate) fn skip_payload<'a>(wire_type: WireType, tag: u32, bytes: &'a [u8]) -> (r: Result<
    &'a [u8],
    prost::DecodeError,
>)
    ensures
        match r {
            Ok(rest) => skipped_prefix(wire_type.number(), tag, bytes@) matches Some(len) && len
                <= bytes@.len() && rest@ == bytes@.skip(len as int),
            Err(_) => skipped_prefix(wire_type.number(), tag, bytes@) is None,
        },
{
    let mut rest = bytes;
    let outside = match wire_type {
        WireType::Varint => prost::encoding::WireType::Varint,
        WireType::SixtyFourBit => prost::encoding::WireType::SixtyFourBit,
        WireType::LengthDelimited => prost::encoding::WireType::LengthDelimited,
        WireType::StartGroup => prost::encoding::WireType::StartGroup,
        WireType::EndGroup => prost::encoding::WireType::EndGroup,
        WireType::ThirtyTwoBit => prost::encoding::WireType::ThirtyTwoBit,
    };
    prost::encoding::skip_field(outside, tag, &mut rest, prost::encoding::DecodeContext::default())?;
    Ok(rest)
}

} // verus!
