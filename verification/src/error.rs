//! The ways in which decoding and encoding fail.

use vstd::prelude::*;

verus! {

/// Why a value could not be decoded from a byte source.
#[derive(Clone, Copy, Debug, PartialEq, Eq, Structural)]
pub enum DecodeError {
    /// The source ran out of bytes before the value was complete.
    UnexpectedEof,
    /// Ten groups of a variable-length integer went by without a final one.
    MalformedVarint,
    /// An enumerated type has no variant with the decoded discriminant.
    UnknownDiscriminant { value: i128 },
    /// The registry holds no packet with the identifier found in the header.
    UnknownPacketId { id: u32 },
}

/// Why a value could not be encoded into a byte sink.
#[derive(Clone, Copy, Debug, PartialEq, Eq, Structural)]
pub enum EncodeError {
    /// The sink took fewer bytes than the encoding has.
    SinkFull,
}

} // verus!
