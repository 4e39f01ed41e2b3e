//! Why a buffer was not accepted as a message.

use vstd::prelude::*;

verus! {

/// The reason a buffer does not hold a well-formed message.
#[derive(Clone, Copy, Debug, PartialEq, Eq, Structural)]
pub enum DecodeFailure {
    /// No well-formed field key stands where a field begins.
    InvalidKey,
    /// A known field does not have the length-delimited wire type.
    UnexpectedWireType,
    /// The length of a nested message is no well-formed varint.
    InvalidVarint,
    /// A nested message claims more bytes than the buffer has left.
    BufferUnderflow,
    /// The fields of a nested message run past its claimed length.
    DelimitedLengthExceeded,
    /// A text field is cut short or is not UTF-8.
    InvalidString,
    /// An unknown field is cut short or ill-formed.
    InvalidField,
}

impl DecodeFailure {
    /// The words that describe this failure.
    pub open spec fn words(self) -> Seq<char> {
        match self {
            DecodeFailure::InvalidKey => "invalid field key"@,
            DecodeFailure::UnexpectedWireType => "unexpected wire type"@,
            DecodeFailure::InvalidVarint => "invalid varint"@,
            DecodeFailure::BufferUnderflow => "buffer underflow"@,
            DecodeFailure::DelimitedLengthExceeded => "delimited length exceeded"@,
            DecodeFailure::InvalidString => "invalid string value"@,
            DecodeFailure::InvalidField => "invalid unknown field"@,
        }
    }

    /// A short description of the failure, for a log line.
    pub fn description(&self) -> (text: &'static str)
        ensures
            text@ == self.words(),
    {
        match self {
            DecodeFailure::InvalidKey => "invalid field key",
            DecodeFailure::UnexpectedWireType => "unexpected wire type",
            DecodeFailure::InvalidVarint => "invalid varint",
            DecodeFailure::BufferUnderflow => "buffer underflow",
            DecodeFailure::DelimitedLengthExceeded => "delimited length exceeded",
            DecodeFailure::InvalidString => "invalid string value",
            DecodeFailure::InvalidField => "invalid unknown field",
        }
    }
}

} // verus!
