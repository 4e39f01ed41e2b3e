//! The encoding of the echo message and of the envelopes that carry it.
//!
//! An echo message is a protobuf message with one field, its text. An envelope
//! is a protobuf message with one known field, a nested echo message; the
//! envelopes of both directions share this layout. Fields with other numbers
//! are skipped. The functions of this module are stated over the text of a
//! message and over the text an envelope carries, if it carries any.

use vstd::prelude::*;
use vstd::utf8::*;
use crate::error::DecodeFailure;
use crate::message::EchoMessage;
use crate::wire::{
    key, key_prefix, lemma_key_prefix_bounds, lemma_key_round_trip, lemma_string_prefix_bounds,
    lemma_string_round_trip, lemma_varint_len, lemma_varint_prefix_bounds,
    lemma_varint_round_trip, put_key, put_string, put_varint, skip_payload, skipped_prefix,
    string_payload, string_prefix, take_key, take_string, take_varint, varint, varint_prefix,
    WireType,
};

verus! {

/// The field number of an echo message's text.
pub const CONTENT_TAG: u32 = 1;

/// The field number under which an envelope carries an echo message.
pub const ECHO_MESSAGE_TAG: u32 = 1;

/// The text of an echo message that has none: the field's default.
pub open spec fn empty_text() -> Seq<char> {
    Seq::empty()
}

/// What a merge leaves behind: the text so far and the bytes not yet read.
pub type Merged = Result<(Seq<char>, Seq<u8>), DecodeFailure>;

/// The bytes of an echo message with the given text. An empty text, the
/// field's default, is left out.
pub open spec fn echo_bytes(content: Seq<char>) -> Seq<u8> {
    if content.len() == 0 {
        Seq::empty()
    } else {
        key(CONTENT_TAG, WireType::LengthDelimited) + string_payload(content)
    }
}

/// The bytes of an envelope: nothing where it carries nothing, else the key of
/// the echo message field, the length of the echo message and its bytes.
pub open spec fn envelope_bytes(payload: Option<Seq<char>>) -> Seq<u8> {
    match payload {
        Some(content) => key(ECHO_MESSAGE_TAG, WireType::LengthDelimited) + varint(
            echo_bytes(content).len(),
        ) + echo_bytes(content),
        None => Seq::empty(),
    }
}

/// One field of an echo message, read from the head of `bytes`. The text field
/// replaces the text so far; any other field is skipped.
pub open spec fn merged_echo_field(content: Seq<char>, bytes: Seq<u8>) -> Merged {
    match key_prefix(bytes) {
        Some((tag, wire_type, len)) => {
            let payload = bytes.skip(len as int);
            if tag != CONTENT_TAG {
                match skipped_prefix(wire_type.number(), tag, payload) {
                    Some(skipped) if skipped <= payload.len() => Ok(
                        (content, payload.skip(skipped as int)),
                    ),
                    _ => Err(DecodeFailure::InvalidField),
                }
            } else if wire_type != WireType::LengthDelimited {
                Err(DecodeFailure::UnexpectedWireType)
            } else {
                match string_prefix(payload) {
                    Some((text, taken)) => Ok((text, payload.skip(taken as int))),
                    None => Err(DecodeFailure::InvalidString),
                }
            }
        },
        None => Err(DecodeFailure::InvalidKey),
    }
}

/// The fields of an echo message, read one after another for as long as more
/// than `limit` bytes are left.
pub open spec fn merged_echo_fields(content: Seq<char>, bytes: Seq<u8>, limit: nat) -> Merged
    decreases bytes.len(),
    via merged_echo_fields_decreases
{
    if bytes.len() <= limit {
        Ok((content, bytes))
    } else {
        match merged_echo_field(content, bytes) {
            Ok((next, rest)) => merged_echo_fields(next, rest, limit),
            Err(error) => Err(error),
        }
    }
}

#[via_fn]
proof fn merged_echo_fields_decreases(content: Seq<char>, bytes: Seq<u8>, limit: nat) {
    lemma_echo_field_advances(content, bytes);
}

/// A field that is read takes at least one byte of the buffer, and leaves a
/// suffix of it.
pub proof fn lemma_echo_field_advances(content: Seq<char>, bytes: Seq<u8>)
    ensures
        match merged_echo_field(content, bytes) {
            Ok((next, rest)) => rest.len() < bytes.len() && rest == bytes.skip(
                bytes.len() - rest.len(),
            ),
            Err(_) => true,
        },
{
    lemma_key_prefix_bounds(bytes);
    if let Some((tag, wire_type, len)) = key_prefix(bytes) {
        let payload = bytes.skip(len as int);
        lemma_string_prefix_bounds(payload);
        if let Ok((next, rest)) = merged_echo_field(content, bytes) {
            let taken = payload.len() - rest.len();
            assert(rest =~= bytes.skip(len + taken));
        }
    }
}

/// An echo message that stands alone in a buffer: its fields are read until
/// the buffer is used up.
pub open spec fn decoded_echo(bytes: Seq<u8>) -> Result<Seq<char>, DecodeFailure> {
    match merged_echo_fields(empty_text(), bytes, 0) {
        Ok((content, rest)) => Ok(content),
        Err(error) => Err(error),
    }
}

/// An echo message nested in a field with the given wire type, read from the
/// head of `bytes`: its length, then its fields, which must end exactly where
/// the length says. The fields are merged into the text so far.
pub open spec fn merged_nested_echo(wire_type: WireType, content: Seq<char>, bytes: Seq<u8>) -> Merged {
    if wire_type != WireType::LengthDelimited {
        Err(DecodeFailure::UnexpectedWireType)
    } else {
        match varint_prefix(bytes) {
            Some((size, len)) => {
                let body = bytes.skip(len as int);
                if size > body.len() {
                    Err(DecodeFailure::BufferUnderflow)
                } else {
                    let limit = (body.len() - size) as nat;
                    match merged_echo_fields(content, body, limit) {
                        Ok((merged, rest)) => if rest.len() == limit {
                            Ok((merged, rest))
                        } else {
                            Err(DecodeFailure::DelimitedLengthExceeded)
                        },
                        Err(error) => Err(error),
                    }
                }
            },
            None => Err(DecodeFailure::InvalidVarint),
        }
    }
}

/// What a merge into an envelope leaves behind: the text it carries so far, if
/// any, and the bytes not yet read.
pub type MergedEnvelope = Result<(Option<Seq<char>>, Seq<u8>), DecodeFailure>;

/// One field of an envelope, read from the head of `bytes`. The echo message
/// field is merged into the echo message that the envelope already carries,
/// or into an empty one; any other field is skipped.
pub open spec fn merged_envelope_field(payload: Option<Seq<char>>, bytes: Seq<u8>) -> MergedEnvelope {
    match key_prefix(bytes) {
        Some((tag, wire_type, len)) => {
            let body = bytes.skip(len as int);
            if tag != ECHO_MESSAGE_TAG {
                match skipped_prefix(wire_type.number(), tag, body) {
                    Some(skipped) if skipped <= body.len() => Ok(
                        (payload, body.skip(skipped as int)),
                    ),
                    _ => Err(DecodeFailure::InvalidField),
                }
            } else {
                let content = match payload {
                    Some(content) => content,
                    None => empty_text(),
                };
                match merged_nested_echo(wire_type, content, body) {
                    Ok((merged, rest)) => Ok((Some(merged), rest)),
                    Err(error) => Err(error),
                }
            }
        },
        None => Err(DecodeFailure::InvalidKey),
    }
}

/// The fields of an envelope, read one after another until the buffer is used
/// up.
pub open spec fn merged_envelope_fields(payload: Option<Seq<char>>, bytes: Seq<u8>) -> Result<
    Option<Seq<char>>,
    DecodeFailure,
>
    decreases bytes.len(),
    via merged_envelope_fields_decreases
{
    if bytes.len() == 0 {
        Ok(payload)
    } else {
        match merged_envelope_field(payload, bytes) {
            Ok((next, rest)) => merged_envelope_fields(next, rest),
            Err(error) => Err(error),
        }
    }
}

#[via_fn]
proof fn merged_envelope_fields_decreases(payload: Option<Seq<char>>, bytes: Seq<u8>) {
    lemma_envelope_field_advances(payload, bytes);
}

/// The bytes that a run of echo fields leaves are a suffix of those it began
/// with.
pub proof fn lemma_echo_fields_advance(content: Seq<char>, bytes: Seq<u8>, limit: nat)
    ensures
        match merged_echo_fields(content, bytes, limit) {
            Ok((merged, rest)) => rest.len() <= bytes.len() && rest == bytes.skip(
                bytes.len() - rest.len(),
            ),
            Err(_) => true,
        },
    decreases bytes.len(),
{
    if bytes.len() > limit {
        lemma_echo_field_advances(content, bytes);
        if let Ok((next, rest)) = merged_echo_field(content, bytes) {
            lemma_echo_fields_advance(next, rest, limit);
            if let Ok((merged, tail)) = merged_echo_fields(next, rest, limit) {
                assert(tail =~= bytes.skip(bytes.len() - tail.len()));
            }
        }
    } else {
        assert(bytes =~= bytes.skip(0));
    }
}

/// An envelope field that is read takes at least one byte of the buffer.
pub proof fn lemma_envelope_field_advances(payload: Option<Seq<char>>, bytes: Seq<u8>)
    ensures
        match merged_envelope_field(payload, bytes) {
            Ok((next, rest)) => rest.len() < bytes.len(),
            Err(_) => true,
        },
{
    lemma_key_prefix_bounds(bytes);
    if let Some((tag, wire_type, len)) = key_prefix(bytes) {
        let body = bytes.skip(len as int);
        if tag == ECHO_MESSAGE_TAG && wire_type == WireType::LengthDelimited {
            lemma_varint_prefix_bounds(body);
            if let Some((size, taken)) = varint_prefix(body) {
                let content = match payload {
                    Some(content) => content,
                    None => Seq::empty(),
                };
                let nested = body.skip(taken as int);
                if size <= nested.len() {
                    lemma_echo_fields_advance(content, nested, (nested.len() - size) as nat);
                }
            }
        }
    }
}

/// The text that the envelope in `bytes` carries, or why `bytes` holds no
/// envelope.
pub open spec fn decoded_envelope(bytes: Seq<u8>) -> Result<Option<Seq<char>>, DecodeFailure> {
    merged_envelope_fields(None, bytes)
}

/// The most bytes a text can take in memory: no allocation is larger.
pub const MAX_TEXT_LEN: u64 = 0x7FFF_FFFF_FFFF_FFFF;

/// Whether a text can be held in memory.
pub open spec fn in_memory(content: Seq<char>) -> bool {
    encode_utf8(content).len() <= MAX_TEXT_LEN
}

/// The bytes of an echo message take at most eleven bytes more than its text.
pub proof fn lemma_echo_bytes_len(content: Seq<char>)
    requires
        in_memory(content),
    ensures
        echo_bytes(content).len() <= encode_utf8(content).len() + 11,
{
    lemma_varint_round_trip(CONTENT_TAG as nat * 8 + 2, Seq::empty());
    lemma_varint_round_trip(encode_utf8(content).len(), Seq::empty());
    lemma_varint_prefix_bounds(key(CONTENT_TAG, WireType::LengthDelimited) + Seq::empty());
    lemma_varint_prefix_bounds(varint(encode_utf8(content).len()) + Seq::empty());
    assert(key(CONTENT_TAG, WireType::LengthDelimited).len() == 1);
}

/// Reading the fields of an echo message from its own bytes, up to whatever
/// follows them, leaves the message's text where it has one and the text so
/// far where it has none.
pub proof fn lemma_merge_echo_bytes(start: Seq<char>, content: Seq<char>, rest: Seq<u8>)
    requires
        in_memory(content),
    ensures
        merged_echo_fields(start, echo_bytes(content) + rest, rest.len()) == Ok::<
            (Seq<char>, Seq<u8>),
            DecodeFailure,
        >((if content.len() == 0 {
            start
        } else {
            content
        }, rest)),
{
    let bytes = echo_bytes(content) + rest;
    if content.len() == 0 {
        assert(bytes =~= rest);
    } else {
        let head = key(CONTENT_TAG, WireType::LengthDelimited);
        lemma_varint_len(CONTENT_TAG as nat * 8 + 2);
        assert(bytes =~= head + (string_payload(content) + rest));
        lemma_key_round_trip(CONTENT_TAG, WireType::LengthDelimited, string_payload(content) + rest);
        let payload = bytes.skip(head.len() as int);
        assert(payload =~= string_payload(content) + rest);
        lemma_string_round_trip(content, rest);
        assert(payload.skip(string_payload(content).len() as int) =~= rest);
        assert(merged_echo_field(start, bytes) == Ok::<(Seq<char>, Seq<u8>), DecodeFailure>(
            (content, rest),
        ));
        assert(merged_echo_fields(content, rest, rest.len()) == Ok::<
            (Seq<char>, Seq<u8>),
            DecodeFailure,
        >((content, rest)));
    }
}

/// An echo message is read back from its bytes: decoding undoes encoding.
pub proof fn lemma_echo_round_trip(content: Seq<char>)
    requires
        in_memory(content),
    ensures
        decoded_echo(echo_bytes(content)) == Ok::<Seq<char>, DecodeFailure>(content),
{
    lemma_merge_echo_bytes(Seq::empty(), content, Seq::empty());
    assert(echo_bytes(content) + Seq::<u8>::empty() =~= echo_bytes(content));
    if content.len() == 0 {
        assert(content =~= Seq::<char>::empty());
    }
}

/// An envelope is read back from its bytes, with the text it carries or with
/// none: decoding undoes encoding.
pub proof fn lemma_envelope_round_trip(payload: Option<Seq<char>>)
    requires
        payload matches Some(content) ==> in_memory(content),
    ensures
        decoded_envelope(envelope_bytes(payload)) == Ok::<Option<Seq<char>>, DecodeFailure>(
            payload,
        ),
{
    if let Some(content) = payload {
        let bytes = envelope_bytes(payload);
        let head = key(ECHO_MESSAGE_TAG, WireType::LengthDelimited);
        let nested = echo_bytes(content);
        let empty = Seq::<u8>::empty();
        lemma_echo_bytes_len(content);
        lemma_varint_len(ECHO_MESSAGE_TAG as nat * 8 + 2);
        assert(bytes =~= head + (varint(nested.len()) + nested));
        lemma_key_round_trip(
            ECHO_MESSAGE_TAG,
            WireType::LengthDelimited,
            varint(nested.len()) + nested,
        );
        let framed = bytes.skip(head.len() as int);
        assert(framed =~= varint(nested.len()) + nested);
        lemma_varint_round_trip(nested.len(), nested);
        let body = framed.skip(varint(nested.len()).len() as int);
        assert(body =~= nested);
        lemma_merge_echo_bytes(empty_text(), content, empty);
        assert(nested + empty =~= nested);
        if content.len() == 0 {
            assert(content =~= empty_text());
        }
        assert(merged_nested_echo(WireType::LengthDelimited, empty_text(), framed) == Ok::<
            (Seq<char>, Seq<u8>),
            DecodeFailure,
        >((content, empty)));
        assert(merged_envelope_field(None, bytes) == Ok::<
            (Option<Seq<char>>, Seq<u8>),
            DecodeFailure,
        >((payload, empty)));
        assert(merged_envelope_fields(payload, empty) == Ok::<Option<Seq<char>>, DecodeFailure>(
            payload,
        ));
    }
}

/// A field of an echo message leaves the text as it was or puts a text in
/// its place that lay in the buffer.
pub proof fn lemma_echo_field_text(content: Seq<char>, bytes: Seq<u8>)
    ensures
        match merged_echo_field(content, bytes) {
            Ok((next, rest)) => next == content || encode_utf8(next).len() < bytes.len(),
            Err(_) => true,
        },
{
    lemma_key_prefix_bounds(bytes);
    if let Some((tag, wire_type, len)) = key_prefix(bytes) {
        lemma_string_prefix_bounds(bytes.skip(len as int));
    }
}

/// A run of fields of an echo message leaves the text as it was or puts a
/// text in its place that lay in the buffer.
pub proof fn lemma_echo_fields_text(content: Seq<char>, bytes: Seq<u8>, limit: nat)
    ensures
        match merged_echo_fields(content, bytes, limit) {
            Ok((merged, rest)) => merged == content || encode_utf8(merged).len() < bytes.len(),
            Err(_) => true,
        },
    decreases bytes.len(),
{
    if bytes.len() > limit {
        lemma_echo_field_text(content, bytes);
        lemma_echo_field_advances(content, bytes);
        if let Ok((next, rest)) = merged_echo_field(content, bytes) {
            lemma_echo_fields_text(next, rest, limit);
        }
    }
}

/// A field of an envelope leaves what the envelope carries as it was or puts
/// a text in its place that lay in the buffer.
pub proof fn lemma_envelope_field_text(payload: Option<Seq<char>>, bytes: Seq<u8>)
    ensures
        match merged_envelope_field(payload, bytes) {
            Ok((next, rest)) => next == payload || (next matches Some(content) && encode_utf8(
                content,
            ).len() < bytes.len()),
            Err(_) => true,
        },
{
    lemma_key_prefix_bounds(bytes);
    if let Some((tag, wire_type, len)) = key_prefix(bytes) {
        let body = bytes.skip(len as int);
        if tag == ECHO_MESSAGE_TAG && wire_type == WireType::LengthDelimited {
            lemma_varint_prefix_bounds(body);
            if let Some((size, taken)) = varint_prefix(body) {
                let content = match payload {
                    Some(content) => content,
                    None => empty_text(),
                };
                let nested = body.skip(taken as int);
                if size <= nested.len() {
                    lemma_echo_fields_text(content, nested, (nested.len() - size) as nat);
                }
            }
        }
    }
}

/// A run of fields of an envelope leaves what the envelope carries as it was
/// or puts a text in its place that lay in the buffer.
pub proof fn lemma_envelope_fields_text(payload: Option<Seq<char>>, bytes: Seq<u8>)
    ensures
        match merged_envelope_fields(payload, bytes) {
            Ok(merged) => merged == payload || (merged matches Some(content) && encode_utf8(
                content,
            ).len() < bytes.len()),
            Err(_) => true,
        },
    decreases bytes.len(),
{
    if bytes.len() > 0 {
        lemma_envelope_field_text(payload, bytes);
        lemma_envelope_field_advances(payload, bytes);
        if let Ok((next, rest)) = merged_envelope_field(payload, bytes) {
            lemma_envelope_fields_text(next, rest);
        }
    }
}

/// Whatever envelope a buffer in memory holds, the bytes written for that
/// envelope hold it again: writing what was read keeps what was meant, also
/// where the buffer itself was written differently.
pub proof fn lemma_reencoding_keeps_envelope(bytes: Seq<u8>)
    requires
        bytes.len() <= MAX_TEXT_LEN,
        decoded_envelope(bytes) is Ok,
    ensures
        decoded_envelope(envelope_bytes(decoded_envelope(bytes)->Ok_0)) == decoded_envelope(bytes),
{
    lemma_envelope_fields_text(None, bytes);
    lemma_envelope_round_trip(decoded_envelope(bytes)->Ok_0);
}

/// What an executable merge into an echo message has returned, as the merge
/// of the text.
pub open spec fn merged_view(r: Result<(EchoMessage, &[u8]), DecodeFailure>) -> Merged {
    match r {
        Ok((echo, rest)) => Ok((echo@, rest@)),
        Err(failure) => Err(failure),
    }
}

/// The text of the echo message that an envelope's payload holds, if any.
pub open spec fn payload_view(payload: Option<EchoMessage>) -> Option<Seq<char>> {
    match payload {
        Some(echo) => Some(echo@),
        None => None,
    }
}

/// What an executable merge into an envelope's payload has returned, as the
/// merge of the text it carries.
pub open spec fn merged_envelope_view(
    r: Result<(Option<EchoMessage>, &[u8]), DecodeFailure>,
) -> MergedEnvelope {
    match r {
        Ok((payload, rest)) => Ok((payload_view(payload), rest@)),
        Err(failure) => Err(failure),
    }
}

/// Writes an echo message as it stands alone.
pub fn encode_echo(echo: &EchoMessage) -> (bytes: Vec<u8>)
    ensures
        bytes@ == echo_bytes(echo@),
{
    let mut buf: Vec<u8> = Vec::new();
    if !echo.content.as_str().is_empty() {
        put_string(CONTENT_TAG, &echo.content, &mut buf);
    }
    buf
}

/// Writes an envelope around the given echo message, or an empty one.
pub fn encode_envelope(payload: Option<&EchoMessage>) -> (bytes: Vec<u8>)
    ensures
        bytes@ == envelope_bytes(
            match payload {
                Some(echo) => Some(echo@),
                None => None,
            },
        ),
{
    let mut buf: Vec<u8> = Vec::new();
    if let Some(echo) = payload {
        let mut nested = encode_echo(echo);
        put_key(ECHO_MESSAGE_TAG, WireType::LengthDelimited, &mut buf);
        put_varint(nested.len() as u64, &mut buf);
        buf.append(&mut nested);
    }
    buf
}

/// Reads one field of an echo message from the head of `bytes` and merges it
/// into `echo`.
pub fn merge_echo_field<'a>(echo: EchoMessage, bytes: &'a [u8]) -> (r: Result<
    (EchoMessage, &'a [u8]),
    DecodeFailure,
>)
    ensures
        merged_view(r) == merged_echo_field(echo@, bytes@),
{
    let (tag, wire_type, payload) = match take_key(bytes) {
        Ok(found) => found,
        Err(_) => {
            return Err(DecodeFailure::InvalidKey);
        },
    };
    if tag != CONTENT_TAG {
        match skip_payload(wire_type, tag, payload) {
            Ok(rest) => Ok((echo, rest)),
            Err(_) => Err(DecodeFailure::InvalidField),
        }
    } else if wire_type != WireType::LengthDelimited {
        Err(DecodeFailure::UnexpectedWireType)
    } else {
        match take_string(payload) {
            Ok((content, rest)) => Ok((EchoMessage { content }, rest)),
            Err(_) => Err(DecodeFailure::InvalidString),
        }
    }
}

/// Reads fields of an echo message from `bytes` into `echo` for as long as
/// more than `limit` bytes are left.
pub fn merge_echo_fields<'a>(echo: EchoMessage, bytes: &'a [u8], limit: usize) -> (r: Result<
    (EchoMessage, &'a [u8]),
    DecodeFailure,
>)
    ensures
        merged_view(r) == merged_echo_fields(echo@, bytes@, limit as nat),
{
    let ghost start = echo@;
    let mut merged = echo;
    let mut rest = bytes;
    while rest.len() > limit
        invariant
            start == echo@,
            merged_echo_fields(merged@, rest@, limit as nat) == merged_echo_fields(
                start,
                bytes@,
                limit as nat,
            ),
        decreases rest.len(),
    {
        proof {
            lemma_echo_field_advances(merged@, rest@);
        }
        match merge_echo_field(merged, rest) {
            Ok((next, tail)) => {
                merged = next;
                rest = tail;
            },
            Err(failure) => {
                return Err(failure);
            },
        }
    }
    Ok((merged, rest))
}

/// Reads the echo message that stands alone in `bytes`.
pub fn decode_echo(bytes: &[u8]) -> (r: Result<EchoMessage, DecodeFailure>)
    ensures
        match r {
            Ok(echo) => decoded_echo(bytes@) == Ok::<Seq<char>, DecodeFailure>(echo@),
            Err(failure) => decoded_echo(bytes@) == Err::<Seq<char>, DecodeFailure>(failure),
        },
{
    match merge_echo_fields(EchoMessage { content: String::new() }, bytes, 0) {
        Ok((echo, _)) => Ok(echo),
        Err(failure) => Err(failure),
    }
}

/// Reads a nested echo message from the head of `bytes`, the payload of a
/// field with the given wire type, and merges its fields into `echo`.
pub fn merge_nested_echo<'a>(wire_type: WireType, echo: EchoMessage, bytes: &'a [u8]) -> (r: Result<
    (EchoMessage, &'a [u8]),
    DecodeFailure,
>)
    ensures
        merged_view(r) == merged_nested_echo(wire_type, echo@, bytes@),
{
    if wire_type != WireType::LengthDelimited {
        return Err(DecodeFailure::UnexpectedWireType);
    }
    let (size, body) = match take_varint(bytes) {
        Ok(found) => found,
        Err(_) => {
            return Err(DecodeFailure::InvalidVarint);
        },
    };
    proof {
        lemma_varint_prefix_bounds(bytes@);
    }
    if size > body.len() as u64 {
        return Err(DecodeFailure::BufferUnderflow);
    }
    let limit: usize = body.len() - size as usize;
    match merge_echo_fields(echo, body, limit) {
        Ok((merged, rest)) => if rest.len() == limit {
            Ok((merged, rest))
        } else {
            Err(DecodeFailure::DelimitedLengthExceeded)
        },
        Err(failure) => Err(failure),
    }
}

/// Reads one field of an envelope from the head of `bytes` and merges it into
/// the payload so far.
pub fn merge_envelope_field<'a>(payload: Option<EchoMessage>, bytes: &'a [u8]) -> (r: Result<
    (Option<EchoMessage>, &'a [u8]),
    DecodeFailure,
>)
    ensures
        merged_envelope_view(r) == merged_envelope_field(payload_view(payload), bytes@),
{
    let (tag, wire_type, body) = match take_key(bytes) {
        Ok(found) => found,
        Err(_) => {
            return Err(DecodeFailure::InvalidKey);
        },
    };
    if tag != ECHO_MESSAGE_TAG {
        match skip_payload(wire_type, tag, body) {
            Ok(rest) => Ok((payload, rest)),
            Err(_) => Err(DecodeFailure::InvalidField),
        }
    } else {
        let echo = match payload {
            Some(echo) => echo,
            None => EchoMessage { content: String::new() },
        };
        match merge_nested_echo(wire_type, echo, body) {
            Ok((merged, rest)) => Ok((Some(merged), rest)),
            Err(failure) => Err(failure),
        }
    }
}

/// Reads the envelope that `bytes` hold and returns the echo message in it,
/// if it holds one.
pub fn decode_envelope(bytes: &[u8]) -> (r: Result<Option<EchoMessage>, DecodeFailure>)
    ensures
        match r {
            Ok(payload) => decoded_envelope(bytes@) == Ok::<Option<Seq<char>>, DecodeFailure>(
                payload_view(payload),
            ),
            Err(failure) => decoded_envelope(bytes@) == Err::<Option<Seq<char>>, DecodeFailure>(
                failure,
            ),
        },
{
    let mut payload: Option<EchoMessage> = None;
    let mut rest = bytes;
    while rest.len() > 0
        invariant
            merged_envelope_fields(payload_view(payload), rest@) == decoded_envelope(bytes@),
        decreases rest.len(),
    {
        proof {
            lemma_envelope_field_advances(payload_view(payload), rest@);
        }
        match merge_envelope_field(payload, rest) {
            Ok((next, tail)) => {
                payload = next;
                rest = tail;
            },
            Err(failure) => {
                return Err(failure);
            },
        }
    }
    Ok(payload)
}

} // verus!
