//! A verified core for a small TCP echo service.
//!
//! The crate holds the parts of the service that decide something: the
//! protobuf framing of the echo envelopes, the answer a connection handler
//! gives to each read, and the life cycle of the acceptor's run flag. Sockets,
//! threads and timers stay with the embedding program, which feeds these
//! functions plain values and carries out what they return.

pub mod wire;
pub mod error;
pub mod codec;
pub mod message;
pub mod server;
