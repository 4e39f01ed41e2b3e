//! The payloads of a client envelope.

use vstd::prelude::*;
use crate::message::EchoMessage;

verus! {

/// What a client envelope may carry.
#[derive(Clone, Debug, PartialEq, Eq)]
pub enum Message {
    EchoMessage(EchoMessage),
}

impl View for Message {
    type V = Seq<char>;

    /// The text of the echo message that is carried.
    open spec fn view(&self) -> Seq<char> {
        match self {
            Message::EchoMessage(echo) => echo@,
        }
    }
}

} // verus!
