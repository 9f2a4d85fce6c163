//! The envelope that a packet travels in, and protocols: a version with the
//! registry of the packets it knows.

use vstd::prelude::*;
use std::collections::HashMap;
use crate::error::DecodeError;
use crate::error::EncodeError;
use crate::packets::LoginPacket;
use crate::packets::NetworkSettingsPacket;
use crate::packets::Packet;
use crate::packets::PacketKind;
use crate::packets::PacketKindView;
use crate::packets::RequestNetworkSettingsPacket;
use crate::packets::decode_kind;
use crate::packets::kind_outcome;
use crate::packets::kind_parse;
use crate::record::BinaryStream;
use crate::record::failed;
use crate::scalar::ByteSink;
use crate::scalar::ByteSource;
use crate::scalar::IntType;
use crate::scalar::Parsed;
use crate::scalar::ReaderExt;
use crate::scalar::WriterExt;
use crate::scalar::int_wire;
use crate::scalar::lemma_int_parse_consumed;
use crate::scalar::lemma_int_round_trip;
use crate::scalar::lemma_write_step;
use crate::scalar::parse_u32;
use crate::scalar::reads;
use crate::scalar::sink_took;
use crate::scalar::varint;

verus! {

/// The bits of a header that hold the packet identifier.
pub const ID_MASK: u32 = 0x3ff;

/// The versions of the protocol that have a number.
#[allow(non_camel_case_types)]
#[derive(Clone, Copy, Debug, PartialEq, Eq, Structural)]
pub enum ProtocolId {
    V1_20_80,
    V1_20_70,
    V1_20_60,
    V1_20_50,
    V1_20_40,
    V1_20_30,
    V1_20_10,
    V1_20_0,
}

impl ProtocolId {
    /// The number of the version.
    pub open spec fn number(self) -> i32 {
        match self {
            ProtocolId::V1_20_80 => 671,
            ProtocolId::V1_20_70 => 662,
            ProtocolId::V1_20_60 => 649,
            ProtocolId::V1_20_50 => 630,
            ProtocolId::V1_20_40 => 622,
            ProtocolId::V1_20_30 => 618,
            ProtocolId::V1_20_10 => 594,
            ProtocolId::V1_20_0 => 589,
        }
    }

    /// The number of the version.
    pub fn to_i32(&self) -> (n: i32)
        ensures
            n == self.number(),
    {
        match self {
            ProtocolId::V1_20_80 => 671,
            ProtocolId::V1_20_70 => 662,
            ProtocolId::V1_20_60 => 649,
            ProtocolId::V1_20_50 => 630,
            ProtocolId::V1_20_40 => 622,
            ProtocolId::V1_20_30 => 618,
            ProtocolId::V1_20_10 => 594,
            ProtocolId::V1_20_0 => 589,
        }
    }
}

/// A registry as a plain value: from packet identifier to the pattern of the
/// packet type.
pub open spec fn registry_view(pool: Map<u32, PacketKind>) -> Map<u32, PacketKindView> {
    pool.map_values(|k: PacketKind| k@)
}

/// The bytes of the packet `v` of type `T` in its envelope: the header, a
/// variable-length integer that holds the identifier of the type and no
/// other bit, and then the packet.
pub open spec fn packet_wire<T: Packet>(v: T::V) -> Seq<u8> {
    int_wire(IntType::U32, varint(), T::packet_id() as int) + T::wire(v)
}

/// What decoding a packet in its envelope makes of `input` under the
/// registry `pool`: the low ten bits of the header are the identifier, and a
/// packet of the type found under it follows.
pub open spec fn packet_parse(pool: Map<u32, PacketKindView>, input: Seq<u8>) -> Parsed<
    PacketKindView,
> {
    let h = parse_u32(varint(), input);
    match h.outcome {
        Ok(header) => {
            let id = (header % 0x400) as u32;
            if pool.dom().contains(id) {
                let p = kind_parse(pool[id], input.skip(h.consumed as int));
                Parsed { outcome: p.outcome, consumed: h.consumed + p.consumed }
            } else {
                Parsed {
                    outcome: Err(DecodeError::UnknownPacketId { id }),
                    consumed: h.consumed,
                }
            }
        },
        Err(e) => failed(0, h),
    }
}

/// A packet that is written in its envelope and read back under a registry
/// that holds the pattern of its type under its identifier comes back as it
/// was, whatever else the registry holds and whatever follows the packet.
pub proof fn lemma_packet_round_trip<T: Packet>(
    pool: Map<u32, PacketKindView>,
    v: T::V,
    rest: Seq<u8>,
)
    requires
        T::encodable(v),
        pool.dom().contains(T::packet_id()),
        pool[T::packet_id()] == T::prototype(),
    ensures
        packet_parse(pool, packet_wire::<T>(v) + rest) == (Parsed {
            outcome: Ok::<PacketKindView, DecodeError>(T::wrap(v)),
            consumed: packet_wire::<T>(v).len(),
        }),
{
    let head = int_wire(IntType::U32, varint(), T::packet_id() as int);
    let body = T::wire(v);
    let all = packet_wire::<T>(v) + rest;
    assert(all == head + (body + rest)) by {
        assert(all =~= head + (body + rest));
    }
    assert(all.skip(head.len() as int) == body + rest) by {
        assert((head + (body + rest)).skip(head.len() as int) =~= body + rest);
    }
    T::lemma_prototype(body + rest);
    assert(parse_u32(varint(), all) == (Parsed {
        outcome: Ok::<u32, DecodeError>(T::packet_id()),
        consumed: head.len(),
    })) by {
        lemma_int_round_trip(IntType::U32, varint(), T::packet_id() as int, body + rest);
    }
    T::lemma_round_trip(v, rest);
}

/// A packet whose identifier the registry does not hold is refused with the
/// identifier.
pub proof fn lemma_unknown_packet_id<T: Packet>(
    pool: Map<u32, PacketKindView>,
    v: T::V,
    rest: Seq<u8>,
)
    requires
        !pool.dom().contains(T::packet_id()),
    ensures
        packet_parse(pool, packet_wire::<T>(v) + rest).outcome == Err::<
            PacketKindView,
            DecodeError,
        >(DecodeError::UnknownPacketId { id: T::packet_id() }),
{
    let head = int_wire(IntType::U32, varint(), T::packet_id() as int);
    let body = T::wire(v);
    let all = packet_wire::<T>(v) + rest;
    assert(all == head + (body + rest)) by {
        assert(all =~= head + (body + rest));
    }
    T::lemma_prototype(body + rest);
    assert(parse_u32(varint(), all) == (Parsed {
        outcome: Ok::<u32, DecodeError>(T::packet_id()),
        consumed: head.len(),
    })) by {
        lemma_int_round_trip(IntType::U32, varint(), T::packet_id() as int, body + rest);
    }
}

/// One version of the protocol: its number, its name and the packets it
/// knows. A protocol holds no state.
pub trait Protocol {
    /// The number of the version.
    spec fn protocol_id() -> i32;

    /// The name of the version.
    spec fn version_text() -> Seq<char>;

    /// The packet types that the version knows, each under its identifier.
    spec fn registry() -> Map<u32, PacketKindView>;

    /// The number of the version.
    fn id() -> (n: i32)
        ensures
            n == Self::protocol_id(),
    ;

    /// The name of the version.
    fn version() -> (s: &'static str)
        ensures
            s@ == Self::version_text(),
    ;

    /// Builds the registry of the version. Every call gives the same one.
    fn pool() -> (m: HashMap<u32, PacketKind>)
        ensures
            registry_view(m@) == Self::registry(),
    ;

    /// Reads the header and then the packet of the type that `pool` holds
    /// under the identifier in the header. `pool` is left as it is.
    fn read_packet<R: ByteSource>(pool: &HashMap<u32, PacketKind>, r: &mut R) -> (res: Result<
        PacketKind,
        DecodeError,
    >)
        ensures
            reads(
                old(r).pending(),
                final(r).pending(),
                kind_outcome(res),
                packet_parse(registry_view(pool@), old(r).pending()),
            ),
    ;

    /// Writes the header for the type of `pk` and then `pk`.
    fn write_packet<T: Packet, W: ByteSink>(w: &mut W, pk: &T) -> (res: Result<(), EncodeError>)
        ensures
            sink_took(
                old(w).written(),
                old(w).room(),
                final(w).written(),
                final(w).room(),
                res,
                packet_wire::<T>(pk@),
            ),
    ;
}

/// The protocol of version 1.20.80.
pub struct DefaultProtocol {}

proof fn lemma_mask(header: u32)
    by (bit_vector)
    ensures
        header & 0x3ffu32 == header % 0x400u32,
{
}

impl Protocol for DefaultProtocol {
    open spec fn protocol_id() -> i32 {
        ProtocolId::V1_20_80.number()
    }

    open spec fn version_text() -> Seq<char> {
        "v1.20.80"@
    }

    open spec fn registry() -> Map<u32, PacketKindView> {
        map![
            RequestNetworkSettingsPacket::packet_id() => RequestNetworkSettingsPacket::prototype(),
            NetworkSettingsPacket::packet_id() => NetworkSettingsPacket::prototype(),
            LoginPacket::packet_id() => LoginPacket::prototype(),
        ]
    }

    fn id() -> (n: i32) {
        ProtocolId::V1_20_80.to_i32()
    }

    fn version() -> (s: &'static str) {
        "v1.20.80"
    }

    fn pool() -> (m: HashMap<u32, PacketKind>) {
        let mut m: HashMap<u32, PacketKind> = HashMap::new();
        m.insert(RequestNetworkSettingsPacket::id(), RequestNetworkSettingsPacket::kind());
        m.insert(NetworkSettingsPacket::id(), NetworkSettingsPacket::kind());
        m.insert(LoginPacket::id(), LoginPacket::kind());
        assert(registry_view(m@) =~= Self::registry());
        m
    }

    fn read_packet<R: ByteSource>(pool: &HashMap<u32, PacketKind>, r: &mut R) -> (res: Result<
        PacketKind,
        DecodeError,
    >) {
        let ghost input = r.pending();
        proof {
            lemma_int_parse_consumed(IntType::U32, varint(), input);
            assert(input.skip(0) =~= input);
        }
        let header = match r.read_vu32() {
            Ok(h) => h,
            Err(e) => {
                return Err(e);
            },
        };
        let ghost h = parse_u32(varint(), input);
        let pid = header & ID_MASK;
        proof {
            lemma_mask(header);
        }
        match pool.get(&pid) {
            Some(kind) => {
                let res = decode_kind(r, kind);
                proof {
                    let p = kind_parse(kind@, input.skip(h.consumed as int));
                    crate::packets::lemma_kind_parse_consumed(
                        kind@,
                        input.skip(h.consumed as int),
                    );
                    assert(input.skip(h.consumed as int).skip(p.consumed as int) =~= input.skip(
                        (h.consumed + p.consumed) as int,
                    ));
                }
                res
            },
            None => Err(DecodeError::UnknownPacketId { id: pid }),
        }
    }

    fn write_packet<T: Packet, W: ByteSink>(w: &mut W, pk: &T) -> (res: Result<(), EncodeError>) {
        let ghost head = int_wire(IntType::U32, varint(), T::packet_id() as int);
        let ghost body = T::wire(pk@);
        let ghost empty = Seq::<u8>::empty();
        assert(old(w).written() + empty =~= old(w).written());
        assert(packet_wire::<T>(pk@) =~= empty + head + body);
        let first = w.write_vu32(T::id());
        proof {
            lemma_write_step(
                old(w).written(),
                old(w).room(),
                empty,
                head,
                body,
                w.written(),
                w.room(),
                first,
            );
        }
        if first.is_err() {
            return first;
        }
        assert(packet_wire::<T>(pk@) =~= empty + head + body + empty);
        let second = pk.write(w);
        proof {
            assert(empty + head =~= head);
            lemma_write_step(
                old(w).written(),
                old(w).room(),
                head,
                body,
                empty,
                w.written(),
                w.room(),
                second,
            );
            assert(head + body + empty =~= packet_wire::<T>(pk@));
        }
        second
    }
}

} // verus!
