//! A binary codec for a versioned game network protocol.
//!
//! Typed packet records are turned into an exact byte sequence and back, and
//! an incoming byte sequence is dispatched to the right packet type by the
//! numeric identifier that leads it.
//!
//! The codec is built from the leaves up: `endian` and `varint` say how a
//! number becomes bytes, `scalar` reads and writes single values on any
//! source and sink of bytes, `record` says what a record and an enumerated
//! type owe to go over the wire, `packets` and `enums` hold the records of
//! the protocol, and `protocol` wraps a packet in its envelope and finds the
//! decoder for an envelope that comes in.
//!
//! Beside the codec stand three small libraries that the game builds on: a
//! state machine (`statem`), vectors and boxes (`vmath`), and entities that
//! move tick by tick (`physics`).

pub mod blob;
pub mod endian;
pub mod enums;
pub mod error;
pub mod packets;
pub mod physics;
pub mod protocol;
pub mod record;
pub mod scalar;
pub mod statem;
pub mod stream;
pub mod varint;
pub mod vmath;
