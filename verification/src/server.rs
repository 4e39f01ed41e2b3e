//! The decisions of the echo server.
//!
//! Two parties decide here. The acceptor owns the run flag: it polls for
//! connections while the flag is up and hands each connection to a handler of
//! its own. A handler answers what it reads from its connection, one read at a
//! time, until the peer closes. Neither touches a socket: the embedding
//! program reports what an `accept` or a `read` gave and carries out what
//! these functions return.

use vstd::prelude::*;
use crate::codec::{
    decoded_envelope, envelope_bytes, in_memory, lemma_envelope_round_trip, ECHO_MESSAGE_TAG,
};
use crate::error::DecodeFailure;
use crate::message::{client_message, server_message, ClientMessage, ServerMessage};
use crate::wire::lemma_varint_len;

verus! {

/// The most bytes a handler takes from its connection in one read. A message
/// is expected to arrive whole in one read.
pub const READ_BUFFER_SIZE: usize = 512;

/// The seconds a handler waits for bytes before it gives its connection up.
pub const READ_TIMEOUT_SECS: u64 = 5;

/// The milliseconds the acceptor sleeps when no connection is pending.
pub const ACCEPT_RETRY_MILLIS: u64 = 100;

/// What a handler does after one read.
#[derive(Clone, Debug, PartialEq, Eq)]
pub enum Response {
    /// Nothing was read: the peer has closed, and the handler ends in peace.
    Disconnected,
    /// An echo message was read: this envelope is written back and flushed.
    Echo(ServerMessage),
    /// The bytes hold no envelope: nothing is written, the handler reads on.
    Malformed(DecodeFailure),
    /// The envelope holds no echo message: nothing is written, the handler
    /// reads on.
    Empty,
}

/// What a handler does after one read, over the text that is sent back.
pub enum Answer {
    Disconnected,
    Echo(Seq<char>),
    Malformed(DecodeFailure),
    Empty,
}

impl View for Response {
    type V = Answer;

    open spec fn view(&self) -> Answer {
        match self {
            Response::Disconnected => Answer::Disconnected,
            Response::Echo(reply) => match reply@ {
                Some(content) => Answer::Echo(content),
                None => Answer::Empty,
            },
            Response::Malformed(failure) => Answer::Malformed(*failure),
            Response::Empty => Answer::Empty,
        }
    }
}

/// The answer to what a read on an open connection returned.
pub open spec fn answer_to(received: Seq<u8>) -> Answer {
    if received.len() == 0 {
        Answer::Disconnected
    } else {
        match decoded_envelope(received) {
            Ok(Some(content)) => Answer::Echo(content),
            Ok(None) => Answer::Empty,
            Err(failure) => Answer::Malformed(failure),
        }
    }
}

/// The handler of one connection.
#[derive(Clone, Copy, Debug, PartialEq, Eq, Structural)]
pub struct Client {
    /// Whether the peer is still there, as far as the handler has seen.
    pub connected: bool,
}

impl Client {
    /// The handler of a connection that was just accepted.
    pub fn new() -> (client: Client)
        ensures
            client.connected,
    {
        Client { connected: true }
    }

    /// The answer this handler gives to what a read returned. A handler whose
    /// peer has closed stays at that.
    pub open spec fn answer(self, received: Seq<u8>) -> Answer {
        if self.connected {
            answer_to(received)
        } else {
            Answer::Disconnected
        }
    }

    /// The handler after a read: only an empty read closes it.
    pub open spec fn after(self, received: Seq<u8>) -> Client {
        Client { connected: self.connected && received.len() > 0 }
    }

    /// Takes what one read returned and says what to do. An empty read ends
    /// the handler. An envelope with an echo message is answered with an
    /// envelope around the same text. Anything else is passed over, and the
    /// connection stays open.
    pub fn handle(&mut self, received: &[u8]) -> (response: Response)
        ensures
            response@ == old(self).answer(received@),
            *final(self) == old(self).after(received@),
            old(self).connected && received@.len() == 0 ==> response is Disconnected,
            response matches Response::Echo(reply) ==> reply@ is Some,
    {
        if !self.connected {
            return Response::Disconnected;
        }
        if received.len() == 0 {
            self.connected = false;
            return Response::Disconnected;
        }
        match ClientMessage::decode(received) {
            Ok(envelope) => match envelope.message {
                Some(client_message::Message::EchoMessage(echo)) => Response::Echo(
                    ServerMessage { message: Some(server_message::Message::EchoMessage(echo)) },
                ),
                None => Response::Empty,
            },
            Err(failure) => Response::Malformed(failure),
        }
    }
}

/// What one call of `accept` on the listening socket gave.
#[derive(Clone, Copy, Debug, PartialEq, Eq, Structural)]
pub enum Accepted {
    /// A connection.
    Connection,
    /// Nothing: no connection is pending.
    WouldBlock,
    /// Any other error.
    Failed,
}

/// What the acceptor does with what `accept` gave.
#[derive(Clone, Copy, Debug, PartialEq, Eq, Structural)]
pub enum AcceptAction {
    /// Start a handler of its own for the connection, with this read timeout
    /// in seconds, and do not wait for it.
    Serve { read_timeout_secs: u64 },
    /// Sleep for this many milliseconds.
    Sleep { millis: u64 },
    /// Note the error; the listener stays in use.
    Report,
}

/// What the acceptor does next.
#[derive(Clone, Copy, Debug, PartialEq, Eq, Structural)]
pub enum Turn {
    /// Call `accept` once more.
    Poll,
    /// Leave the loop and return in peace, without waiting for any handler.
    Return,
}

/// What a call of `stop` found.
#[derive(Clone, Copy, Debug, PartialEq, Eq, Structural)]
pub enum StopOutcome {
    /// The server was running and has been told to stop.
    ShutdownSignalled,
    /// The server was not running: nothing was changed.
    AlreadyStopped,
}

/// The acceptor's state: its run flag.
#[derive(Clone, Copy, Debug, PartialEq, Eq, Structural)]
pub struct Server {
    /// Up while the acceptor is to go on accepting.
    pub is_running: bool,
}

impl Server {
    /// A server that has not been started: its flag is down.
    pub fn new() -> (server: Server)
        ensures
            !server.is_running,
    {
        Server { is_running: false }
    }

    /// The server once it runs.
    pub open spec fn after_run(self) -> Server {
        Server { is_running: true }
    }

    /// The server once it was told to stop.
    pub open spec fn after_stop(self) -> Server {
        Server { is_running: false }
    }

    /// What telling this server to stop finds.
    pub open spec fn stop_outcome(self) -> StopOutcome {
        if self.is_running {
            StopOutcome::ShutdownSignalled
        } else {
            StopOutcome::AlreadyStopped
        }
    }

    /// What the acceptor of this server does next.
    pub open spec fn next_turn(self) -> Turn {
        if self.is_running {
            Turn::Poll
        } else {
            Turn::Return
        }
    }

    /// What the acceptor does with what `accept` gave.
    pub open spec fn action_on(accepted: Accepted) -> AcceptAction {
        match accepted {
            Accepted::Connection => AcceptAction::Serve { read_timeout_secs: READ_TIMEOUT_SECS },
            Accepted::WouldBlock => AcceptAction::Sleep { millis: ACCEPT_RETRY_MILLIS },
            Accepted::Failed => AcceptAction::Report,
        }
    }

    /// Raises the run flag: the accept loop begins. A server that runs
    /// already is left running.
    pub fn run(&mut self)
        ensures
            *final(self) == old(self).after_run(),
            final(self).is_running,
    {
        self.is_running = true;
    }

    /// Says whether the accept loop goes on: it does while the flag is up.
    pub fn turn(&self) -> (turn: Turn)
        ensures
            turn == self.next_turn(),
    {
        if self.is_running {
            Turn::Poll
        } else {
            Turn::Return
        }
    }

    /// Says what to do with what `accept` gave: a connection gets a handler
    /// with the fixed read timeout, no pending connection a short sleep, and
    /// any other error a note, after which the loop goes on.
    pub fn accepted(accepted: Accepted) -> (action: AcceptAction)
        ensures
            action == Server::action_on(accepted),
    {
        match accepted {
            Accepted::Connection => AcceptAction::Serve { read_timeout_secs: READ_TIMEOUT_SECS },
            Accepted::WouldBlock => AcceptAction::Sleep { millis: ACCEPT_RETRY_MILLIS },
            Accepted::Failed => AcceptAction::Report,
        }
    }

    /// Lowers the run flag if it is up, and says which it was. A second call
    /// in a row finds the flag down and changes nothing.
    pub fn stop(&mut self) -> (outcome: StopOutcome)
        ensures
            *final(self) == old(self).after_stop(),
            outcome == old(self).stop_outcome(),
            !final(self).is_running,
            !old(self).is_running ==> *final(self) == *old(self),
    {
        if self.is_running {
            self.is_running = false;
            StopOutcome::ShutdownSignalled
        } else {
            StopOutcome::AlreadyStopped
        }
    }
}

/// Whatever text a client puts into an envelope, the handler answers the
/// envelope's bytes with an envelope around that very text, the bytes of the
/// answer hold that text, and the connection stays open.
pub proof fn lemma_echo_is_exact(client: Client, content: Seq<char>)
    requires
        client.connected,
        in_memory(content),
    ensures
        client.answer(envelope_bytes(Some(content))) == Answer::Echo(content),
        decoded_envelope(envelope_bytes(Some(content))) == Ok::<Option<Seq<char>>, DecodeFailure>(
            Some(content),
        ),
        client.after(envelope_bytes(Some(content))).connected,
{
    lemma_envelope_round_trip(Some(content));
    lemma_varint_len(ECHO_MESSAGE_TAG as nat * 8 + 2);
}

/// A connection that is closed before anything was sent ends its handler
/// without an error and without a reply.
pub proof fn lemma_silent_disconnect(client: Client)
    requires
        client.connected,
    ensures
        client.answer(Seq::empty()) == Answer::Disconnected,
        !client.after(Seq::empty()).connected,
{
}

/// Once a server was told to stop, its acceptor does not poll again, whatever
/// state it was in; what a handler answers does not depend on the server.
pub proof fn lemma_stop_ends_accepting(server: Server, client: Client, received: Seq<u8>)
    ensures
        server.after_stop().next_turn() == Turn::Return,
        client.connected ==> client.answer(received) == answer_to(received),
{
}

/// A second stop in a row finds the server stopped and leaves it as it is.
pub proof fn lemma_stop_twice(server: Server)
    ensures
        server.after_stop().stop_outcome() == StopOutcome::AlreadyStopped,
        server.after_stop().after_stop() == server.after_stop(),
{
}

/// Bytes that hold no envelope leave the connection open, and an envelope
/// that follows them on the same connection is answered as if nothing had
/// gone before.
pub proof fn lemma_malformed_is_passed_over(client: Client, malformed: Seq<u8>, content: Seq<char>)
    requires
        client.connected,
        malformed.len() > 0,
        decoded_envelope(malformed) is Err,
        in_memory(content),
    ensures
        client.answer(malformed) == Answer::Malformed(decoded_envelope(malformed)->Err_0),
        client.after(malformed).connected,
        client.after(malformed).answer(envelope_bytes(Some(content))) == Answer::Echo(content),
{
    lemma_echo_is_exact(client.after(malformed), content);
}

} // verus!
