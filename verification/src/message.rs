//! The messages of the echo protocol and their wire form.
//!
//! A client sends a [`ClientMessage`], the server answers with a
//! [`ServerMessage`]; each is an envelope around at most one payload, and the
//! one payload there is, is an [`EchoMessage`].

use vstd::prelude::*;
use crate::codec::{
    decode_echo, decode_envelope, decoded_echo, decoded_envelope, echo_bytes, encode_echo,
    encode_envelope, envelope_bytes,
};
use crate::error::DecodeFailure;

pub mod client_message;
pub mod server_message;

verus! {

/// A text that a client sends and that the server sends back.
#[derive(Clone, Debug, PartialEq, Eq)]
pub struct EchoMessage {
    pub content: String,
}

impl View for EchoMessage {
    type V = Seq<char>;

    /// The text of the message.
    open spec fn view(&self) -> Seq<char> {
        self.content@
    }
}

impl Default for EchoMessage {
    fn default() -> (message: EchoMessage)
        ensures
            message@ == Seq::<char>::empty(),
    {
        EchoMessage { content: String::new() }
    }
}

impl EchoMessage {
    /// The message's bytes when it stands alone.
    pub fn encode_to_vec(&self) -> (bytes: Vec<u8>)
        ensures
            bytes@ == echo_bytes(self@),
    {
        encode_echo(self)
    }

    /// The message that stands alone in `bytes`.
    pub fn decode(bytes: &[u8]) -> (r: Result<EchoMessage, DecodeFailure>)
        ensures
            match r {
                Ok(message) => decoded_echo(bytes@) == Ok::<Seq<char>, DecodeFailure>(message@),
                Err(failure) => decoded_echo(bytes@) == Err::<Seq<char>, DecodeFailure>(failure),
            },
    {
        decode_echo(bytes)
    }
}

/// The envelope of what a client sends.
#[derive(Clone, Debug, PartialEq, Eq)]
pub struct ClientMessage {
    pub message: Option<client_message::Message>,
}

impl View for ClientMessage {
    type V = Option<Seq<char>>;

    /// The text of the echo message in the envelope, if it holds one.
    open spec fn view(&self) -> Option<Seq<char>> {
        match self.message {
            Some(payload) => Some(payload@),
            None => None,
        }
    }
}

impl Default for ClientMessage {
    fn default() -> (envelope: ClientMessage)
        ensures
            envelope@ is None,
    {
        ClientMessage { message: None }
    }
}

impl ClientMessage {
    /// The envelope's bytes.
    pub fn encode_to_vec(&self) -> (bytes: Vec<u8>)
        ensures
            bytes@ == envelope_bytes(self@),
    {
        match &self.message {
            Some(client_message::Message::EchoMessage(echo)) => encode_envelope(Some(echo)),
            None => encode_envelope(None),
        }
    }

    /// The envelope that `bytes` hold.
    pub fn decode(bytes: &[u8]) -> (r: Result<ClientMessage, DecodeFailure>)
        ensures
            match r {
                Ok(envelope) => decoded_envelope(bytes@) == Ok::<Option<Seq<char>>, DecodeFailure>(
                    envelope@,
                ),
                Err(failure) => decoded_envelope(bytes@) == Err::<
                    Option<Seq<char>>,
                    DecodeFailure,
                >(failure),
            },
    {
        match decode_envelope(bytes) {
            Ok(Some(echo)) => Ok(
                ClientMessage { message: Some(client_message::Message::EchoMessage(echo)) },
            ),
            Ok(None) => Ok(ClientMessage { message: None }),
            Err(failure) => Err(failure),
        }
    }
}

/// The envelope of what the server sends.
#[derive(Clone, Debug, PartialEq, Eq)]
pub struct ServerMessage {
    pub message: Option<server_message::Message>,
}

impl View for ServerMessage {
    type V = Option<Seq<char>>;

    /// The text of the echo message in the envelope, if it holds one.
    open spec fn view(&self) -> Option<Seq<char>> {
        match self.message {
            Some(payload) => Some(payload@),
            None => None,
        }
    }
}

impl Default for ServerMessage {
    fn default() -> (envelope: ServerMessage)
        ensures
            envelope@ is None,
    {
        ServerMessage { message: None }
    }
}

impl ServerMessage {
    /// The envelope's bytes.
    pub fn encode_to_vec(&self) -> (bytes: Vec<u8>)
        ensures
            bytes@ == envelope_bytes(self@),
    {
        match &self.message {
            Some(server_message::Message::EchoMessage(echo)) => encode_envelope(Some(echo)),
            None => encode_envelope(None),
        }
    }

    /// The envelope that `bytes` hold.
    pub fn decode(bytes: &[u8]) -> (r: Result<ServerMessage, DecodeFailure>)
        ensures
            match r {
                Ok(envelope) => decoded_envelope(bytes@) == Ok::<Option<Seq<char>>, DecodeFailure>(
                    envelope@,
                ),
                Err(failure) => decoded_envelope(bytes@) == Err::<
                    Option<Seq<char>>,
                    DecodeFailure,
                >(failure),
            },
    {
        match decode_envelope(bytes) {
            Ok(Some(echo)) => Ok(
                ServerMessage { message: Some(server_message::Message::EchoMessage(echo)) },
            ),
            Ok(None) => Ok(ServerMessage { message: None }),
            Err(failure) => Err(failure),
        }
    }
}

} // verus!
