use embedded_recruitment_task::codec::{
    decode_echo, decode_envelope, encode_echo, encode_envelope, merge_echo_field,
    merge_echo_fields, merge_envelope_field, merge_nested_echo,
};
use embedded_recruitment_task::error::DecodeFailure;
use embedded_recruitment_task::message::{
    client_message, server_message, ClientMessage, EchoMessage, ServerMessage,
};
use embedded_recruitment_task::wire::WireType;
use prost::Message;

fn echo(content: &str) -> EchoMessage {
    EchoMessage { content: content.to_string() }
}

fn client_envelope(content: &str) -> ClientMessage {
    ClientMessage { message: Some(client_message::Message::EchoMessage(echo(content))) }
}

fn server_envelope(content: &str) -> ServerMessage {
    ServerMessage { message: Some(server_message::Message::EchoMessage(echo(content))) }
}

/// The envelope as `prost` itself writes a nested message with one string field.
fn reference_envelope(content: &str) -> Vec<u8> {
    let mut buf = Vec::new();
    prost::encoding::message::encode(1, &content.to_string(), &mut buf);
    buf
}

#[test]
fn echo_message_bytes_are_exact() {
    assert_eq!(echo("A").encode_to_vec(), vec![0x0A, 0x01, 0x41]);
    assert_eq!(echo("").encode_to_vec(), Vec::<u8>::new());
    assert_eq!(echo("\u{e9}").encode_to_vec(), vec![0x0A, 0x02, 0xC3, 0xA9]);
}

#[test]
fn envelope_bytes_are_exact() {
    assert_eq!(client_envelope("A").encode_to_vec(), vec![0x0A, 0x03, 0x0A, 0x01, 0x41]);
    assert_eq!(server_envelope("A").encode_to_vec(), vec![0x0A, 0x03, 0x0A, 0x01, 0x41]);
    assert_eq!(client_envelope("").encode_to_vec(), vec![0x0A, 0x00]);
    assert_eq!(ClientMessage { message: None }.encode_to_vec(), Vec::<u8>::new());
    assert_eq!(ServerMessage { message: None }.encode_to_vec(), Vec::<u8>::new());
}

#[test]
fn lengths_grow_into_longer_varints() {
    let text = "y".repeat(127);
    let bytes = echo(&text).encode_to_vec();
    assert_eq!(&bytes[..2], &[0x0A, 0x7F]);
    assert_eq!(bytes.len(), 129);

    let text = "y".repeat(128);
    let bytes = echo(&text).encode_to_vec();
    assert_eq!(&bytes[..3], &[0x0A, 0x80, 0x01]);
    assert_eq!(bytes.len(), 131);

    let text = "y".repeat(300);
    let bytes = client_envelope(&text).encode_to_vec();
    // 300 = 0xAC 0x02; the nested message takes 303 = 0xAF 0x02 bytes.
    assert_eq!(&bytes[..6], &[0x0A, 0xAF, 0x02, 0x0A, 0xAC, 0x02]);
    assert_eq!(bytes.len(), 306);

    let text = "z".repeat(20_000);
    let bytes = echo(&text).encode_to_vec();
    // 20000 = 0xA0 0x9C 0x01
    assert_eq!(&bytes[..4], &[0x0A, 0xA0, 0x9C, 0x01]);
    assert_eq!(EchoMessage::decode(&bytes), Ok(echo(&text)));
}

#[test]
fn bytes_agree_with_prost() {
    let long = "k".repeat(1000);
    for text in ["", "A", "Hello, server!", "\u{1f980} crab", long.as_str()] {
        assert_eq!(echo(text).encode_to_vec(), text.to_string().encode_to_vec());
        assert_eq!(client_envelope(text).encode_to_vec(), reference_envelope(text));
        assert_eq!(server_envelope(text).encode_to_vec(), reference_envelope(text));
        assert_eq!(String::decode(echo(text).encode_to_vec().as_slice()), Ok(text.to_string()));
    }
}

#[test]
fn decoding_undoes_encoding() {
    let long = "r".repeat(70_000);
    for text in ["", "A", "Hello, server!", "\u{4f60}\u{597d}", long.as_str()] {
        assert_eq!(EchoMessage::decode(&echo(text).encode_to_vec()), Ok(echo(text)));
        assert_eq!(
            ClientMessage::decode(&client_envelope(text).encode_to_vec()),
            Ok(client_envelope(text))
        );
        assert_eq!(
            ServerMessage::decode(&server_envelope(text).encode_to_vec()),
            Ok(server_envelope(text))
        );
    }
    assert_eq!(ClientMessage::decode(&[]), Ok(ClientMessage { message: None }));
    assert_eq!(ServerMessage::decode(&[]), Ok(ServerMessage { message: None }));
}

#[test]
fn reencoding_keeps_the_envelope() {
    // The length 1 written in two bytes, and an unknown field before the payload.
    let odd = [0x10, 0x05, 0x0A, 0x04, 0x0A, 0x81, 0x00, 0x41];
    let envelope = ClientMessage::decode(&odd).expect("well-formed");
    assert_eq!(envelope, client_envelope("A"));
    let again = envelope.encode_to_vec();
    assert_eq!(again, vec![0x0A, 0x03, 0x0A, 0x01, 0x41]);
    assert_eq!(ClientMessage::decode(&again), Ok(envelope));
}

#[test]
fn defaults_are_empty() {
    assert_eq!(EchoMessage::default(), echo(""));
    assert_eq!(ClientMessage::default(), ClientMessage { message: None });
    assert_eq!(ServerMessage::default(), ServerMessage { message: None });
}

#[test]
fn last_text_wins() {
    assert_eq!(EchoMessage::decode(&[0x0A, 0x01, 0x41, 0x0A, 0x01, 0x42]), Ok(echo("B")));
    assert_eq!(
        String::decode(&[0x0A, 0x01, 0x41, 0x0A, 0x01, 0x42][..]),
        Ok("B".to_string())
    );
    assert_eq!(
        ClientMessage::decode(&[0x0A, 0x03, 0x0A, 0x01, 0x41, 0x0A, 0x03, 0x0A, 0x01, 0x42]),
        Ok(client_envelope("B"))
    );
}

#[test]
fn second_payload_merges_into_the_first() {
    // An empty echo message after one with a text leaves the text.
    assert_eq!(
        ClientMessage::decode(&[0x0A, 0x03, 0x0A, 0x01, 0x41, 0x0A, 0x00]),
        Ok(client_envelope("A"))
    );
    assert_eq!(ClientMessage::decode(&[0x0A, 0x00]), Ok(client_envelope("")));
}

#[test]
fn unknown_fields_are_skipped() {
    // Field 2 as a varint, field 3 as four bytes, field 4 as eight bytes,
    // field 5 as a length-delimited blob, field 6 as a group.
    let unknown: [u8; 26] = [
        0x10, 0x96, 0x01, 0x1D, 1, 2, 3, 4, 0x21, 1, 2, 3, 4, 5, 6, 7, 8, 0x2A, 0x02, 0xFF, 0xFE,
        0x33, 0x08, 0x01, 0x34, 0x0A,
    ];
    let mut bytes = unknown[..25].to_vec();
    bytes.extend_from_slice(&[0x0A, 0x01, 0x41]);
    assert_eq!(EchoMessage::decode(&bytes), Ok(echo("A")));
    assert_eq!(String::decode(bytes.as_slice()), Ok("A".to_string()));

    let mut bytes = unknown[..25].to_vec();
    bytes.extend_from_slice(&[0x0A, 0x03, 0x0A, 0x01, 0x41]);
    assert_eq!(ClientMessage::decode(&bytes), Ok(client_envelope("A")));

    assert_eq!(ClientMessage::decode(&unknown[..25]), Ok(ClientMessage { message: None }));
    assert_eq!(EchoMessage::decode(&unknown[..25]), Ok(echo("")));

    // Inside the nested message too.
    assert_eq!(
        ServerMessage::decode(&[0x0A, 0x05, 0x10, 0x07, 0x0A, 0x01, 0x41]),
        Ok(server_envelope("A"))
    );
}

#[test]
fn varints_may_be_written_long() {
    assert_eq!(EchoMessage::decode(&[0x0A, 0x81, 0x00, 0x41]), Ok(echo("A")));
    assert_eq!(EchoMessage::decode(&[0x8A, 0x00, 0x01, 0x41]), Ok(echo("A")));
    // Ten bytes, the last one 0: still the length 1.
    let bytes = [0x0A, 0x81, 0x80, 0x80, 0x80, 0x80, 0x80, 0x80, 0x80, 0x80, 0x00, 0x41];
    assert_eq!(EchoMessage::decode(&bytes), Ok(echo("A")));
    assert_eq!(String::decode(&bytes[..]), Ok("A".to_string()));
}

#[test]
fn varints_end_within_ten_bytes() {
    // Eleven bytes of length.
    let bytes = [0x0A, 0x81, 0x80, 0x80, 0x80, 0x80, 0x80, 0x80, 0x80, 0x80, 0x80, 0x00, 0x41];
    assert_eq!(EchoMessage::decode(&bytes), Err(DecodeFailure::InvalidString));
    assert!(String::decode(&bytes[..]).is_err());
    // A tenth byte above 1.
    let bytes = [0x0A, 0x81, 0x80, 0x80, 0x80, 0x80, 0x80, 0x80, 0x80, 0x80, 0x02, 0x41];
    assert_eq!(EchoMessage::decode(&bytes), Err(DecodeFailure::InvalidString));
    assert!(String::decode(&bytes[..]).is_err());
    // A length of 2^63, written with a tenth byte of 1, is more than is left.
    let bytes = [0x0A, 0x80, 0x80, 0x80, 0x80, 0x80, 0x80, 0x80, 0x80, 0x80, 0x01, 0x41];
    assert_eq!(EchoMessage::decode(&bytes), Err(DecodeFailure::InvalidString));
    assert_eq!(
        ClientMessage::decode(&bytes),
        Err(DecodeFailure::BufferUnderflow)
    );
}

#[test]
fn invalid_key_is_reported() {
    // Field number 0.
    assert_eq!(ClientMessage::decode(&[0x02, 0x00]), Err(DecodeFailure::InvalidKey));
    // Wire types 6 and 7.
    assert_eq!(ClientMessage::decode(&[0x0E, 0x00]), Err(DecodeFailure::InvalidKey));
    assert_eq!(ClientMessage::decode(&[0x0F, 0x00]), Err(DecodeFailure::InvalidKey));
    // A key cut short.
    assert_eq!(ClientMessage::decode(&[0x8A]), Err(DecodeFailure::InvalidKey));
    // A key above 32 bits.
    assert_eq!(
        ClientMessage::decode(&[0x8A, 0x80, 0x80, 0x80, 0x10, 0x00]),
        Err(DecodeFailure::InvalidKey)
    );
    // The largest key there is: field 2^29 - 1, skipped as a varint.
    assert_eq!(
        ClientMessage::decode(&[0xF8, 0xFF, 0xFF, 0xFF, 0x0F, 0x00]),
        Ok(ClientMessage { message: None })
    );
    assert_eq!(EchoMessage::decode(&[0x00]), Err(DecodeFailure::InvalidKey));
    assert!(String::decode(&[0x00u8][..]).is_err());
    // Inside the nested message.
    assert_eq!(ClientMessage::decode(&[0x0A, 0x01, 0x07]), Err(DecodeFailure::InvalidKey));
}

#[test]
fn unexpected_wire_type_is_reported() {
    assert_eq!(ClientMessage::decode(&[0x08, 0x01]), Err(DecodeFailure::UnexpectedWireType));
    assert_eq!(ServerMessage::decode(&[0x0D, 0, 0, 0, 0]), Err(DecodeFailure::UnexpectedWireType));
    assert_eq!(EchoMessage::decode(&[0x08, 0x01]), Err(DecodeFailure::UnexpectedWireType));
    assert!(String::decode(&[0x08u8, 0x01][..]).is_err());
    assert_eq!(
        ClientMessage::decode(&[0x0A, 0x02, 0x08, 0x01]),
        Err(DecodeFailure::UnexpectedWireType)
    );
}

#[test]
fn invalid_varint_is_reported() {
    assert_eq!(ClientMessage::decode(&[0x0A]), Err(DecodeFailure::InvalidVarint));
    assert_eq!(ClientMessage::decode(&[0x0A, 0x80]), Err(DecodeFailure::InvalidVarint));
}

#[test]
fn buffer_underflow_is_reported() {
    assert_eq!(ClientMessage::decode(&[0x0A, 0x05, 0x0A]), Err(DecodeFailure::BufferUnderflow));
    assert_eq!(ClientMessage::decode(&[0x0A, 0x01]), Err(DecodeFailure::BufferUnderflow));
}

#[test]
fn delimited_length_exceeded_is_reported() {
    // The nested message claims one byte; its one field takes three.
    assert_eq!(
        ClientMessage::decode(&[0x0A, 0x01, 0x0A, 0x01, 0x41]),
        Err(DecodeFailure::DelimitedLengthExceeded)
    );
    let mut text = String::new();
    let mut rest: &[u8] = &[0x01, 0x0A, 0x01, 0x41];
    assert!(prost::encoding::message::merge(
        prost::encoding::WireType::LengthDelimited,
        &mut text,
        &mut rest,
        prost::encoding::DecodeContext::default()
    )
    .is_err());
}

#[test]
fn invalid_string_is_reported() {
    // Not UTF-8.
    assert_eq!(EchoMessage::decode(&[0x0A, 0x01, 0xFF]), Err(DecodeFailure::InvalidString));
    assert_eq!(
        ClientMessage::decode(&[0x0A, 0x03, 0x0A, 0x01, 0xFF]),
        Err(DecodeFailure::InvalidString)
    );
    // A surrogate, and an overlong form.
    assert_eq!(
        EchoMessage::decode(&[0x0A, 0x03, 0xED, 0xA0, 0x80]),
        Err(DecodeFailure::InvalidString)
    );
    assert_eq!(EchoMessage::decode(&[0x0A, 0x02, 0xC0, 0x80]), Err(DecodeFailure::InvalidString));
    // Cut short.
    assert_eq!(EchoMessage::decode(&[0x0A, 0x05, 0x41]), Err(DecodeFailure::InvalidString));
    assert_eq!(EchoMessage::decode(&[0x0A]), Err(DecodeFailure::InvalidString));
}

#[test]
fn invalid_field_is_reported() {
    // Four bytes promised, one there.
    assert_eq!(ClientMessage::decode(&[0x15, 0x00]), Err(DecodeFailure::InvalidField));
    // An end of group with no group open.
    assert_eq!(ClientMessage::decode(&[0x14]), Err(DecodeFailure::InvalidField));
    // A group that ends under another number.
    assert_eq!(ClientMessage::decode(&[0x13, 0x1C]), Err(DecodeFailure::InvalidField));
    // A group that does not end.
    assert_eq!(EchoMessage::decode(&[0x13, 0x08, 0x01]), Err(DecodeFailure::InvalidField));
    assert!(String::decode(&[0x13u8, 0x08, 0x01][..]).is_err());
    // A blob longer than what is left.
    assert_eq!(EchoMessage::decode(&[0x12, 0x02, 0x00]), Err(DecodeFailure::InvalidField));
}

#[test]
fn failures_describe_themselves() {
    assert_eq!(DecodeFailure::InvalidKey.description(), "invalid field key");
    assert_eq!(DecodeFailure::UnexpectedWireType.description(), "unexpected wire type");
    assert_eq!(DecodeFailure::InvalidVarint.description(), "invalid varint");
    assert_eq!(DecodeFailure::BufferUnderflow.description(), "buffer underflow");
    assert_eq!(
        DecodeFailure::DelimitedLengthExceeded.description(),
        "delimited length exceeded"
    );
    assert_eq!(DecodeFailure::InvalidString.description(), "invalid string value");
    assert_eq!(DecodeFailure::InvalidField.description(), "invalid unknown field");
}

#[test]
fn merging_a_field_returns_what_follows() {
    let bytes = [0x0A, 0x01, 0x41, 0x10, 0x07];
    let (merged, rest) = merge_echo_field(echo("old"), &bytes).expect("well-formed");
    assert_eq!(merged, echo("A"));
    assert_eq!(rest, &[0x10, 0x07]);
    let (merged, rest) = merge_echo_field(merged, rest).expect("well-formed");
    assert_eq!(merged, echo("A"));
    assert!(rest.is_empty());
}

#[test]
fn merging_fields_stops_at_the_limit() {
    let bytes = [0x0A, 0x01, 0x41, 0x0A, 0x01, 0x42, 0x0A, 0x01, 0x43];
    let (merged, rest) = merge_echo_fields(echo(""), &bytes, 3).expect("well-formed");
    assert_eq!(merged, echo("B"));
    assert_eq!(rest, &[0x0A, 0x01, 0x43]);
    let (merged, rest) = merge_echo_fields(echo(""), &bytes, 4).expect("well-formed");
    assert_eq!(merged, echo("B"));
    assert_eq!(rest.len(), 3);
    let (merged, rest) = merge_echo_fields(echo("kept"), &bytes, 9).expect("well-formed");
    assert_eq!(merged, echo("kept"));
    assert_eq!(rest.len(), 9);
}

#[test]
fn merging_a_nested_message_returns_what_follows() {
    let bytes = [0x03, 0x0A, 0x01, 0x41, 0x10, 0x07];
    let (merged, rest) =
        merge_nested_echo(WireType::LengthDelimited, echo(""), &bytes).expect("well-formed");
    assert_eq!(merged, echo("A"));
    assert_eq!(rest, &[0x10, 0x07]);
    assert_eq!(
        merge_nested_echo(WireType::Varint, echo(""), &bytes),
        Err(DecodeFailure::UnexpectedWireType)
    );
    let (payload, rest) = merge_envelope_field(None, &[0x0A, 0x00, 0x10]).expect("well-formed");
    assert_eq!(payload, Some(echo("")));
    assert_eq!(rest, &[0x10]);
    let (payload, rest) =
        merge_envelope_field(Some(echo("A")), &[0x10, 0x07, 0x0A]).expect("well-formed");
    assert_eq!(payload, Some(echo("A")));
    assert_eq!(rest, &[0x0A]);
}

#[test]
fn free_functions_agree_with_methods() {
    assert_eq!(encode_echo(&echo("A")), echo("A").encode_to_vec());
    assert_eq!(encode_envelope(Some(&echo("A"))), client_envelope("A").encode_to_vec());
    assert_eq!(encode_envelope(None), Vec::<u8>::new());
    assert_eq!(decode_echo(&[0x0A, 0x01, 0x41]), Ok(echo("A")));
    assert_eq!(decode_envelope(&[0x0A, 0x03, 0x0A, 0x01, 0x41]), Ok(Some(echo("A"))));
    assert_eq!(decode_envelope(&[]), Ok(None));
}
