//! The packets of the protocol, and the union of them by which a decoded
//! packet is handed out.

use vstd::prelude::*;
use crate::blob::Vu32LenByteSlice;
use crate::blob::blob_parse;
use crate::blob::blob_wire;
use crate::blob::lemma_blob_parse_consumed;
use crate::blob::lemma_blob_round_trip;
use crate::endian::Endianness;
use crate::enums::ActorEvent;
use crate::enums::CompressionAlgorithm;
use crate::enums::PlayStatus;
use crate::error::DecodeError;
use crate::error::EncodeError;
use crate::record::BinaryStream;
use crate::record::EnumBinaryStream;
use crate::record::enum_parse;
use crate::record::enum_wire;
use crate::record::failed;
use crate::record::lemma_enum_parse_consumed;
use crate::record::lemma_enum_round_trip;
use crate::scalar::ByteSink;
use crate::scalar::ByteSource;
use crate::scalar::IntType;
use crate::scalar::Parsed;
use crate::scalar::ReaderExt;
use crate::scalar::WriterExt;
use crate::scalar::bool_wire;
use crate::scalar::fixed_width;
use crate::scalar::int_wire;
use crate::scalar::lemma_byte_round_trip;
use crate::scalar::lemma_int_parse_consumed;
use crate::scalar::lemma_int_round_trip;
use crate::scalar::lemma_skip_more;
use crate::scalar::lemma_write_step;
use crate::scalar::parse_bool;
use crate::scalar::parse_i32;
use crate::scalar::parse_i64;
use crate::scalar::parse_i8;
use crate::scalar::parse_u16;
use crate::scalar::parse_u32;
use crate::scalar::parse_u8;
use crate::scalar::varint;

verus! {

/// What is known of a packet type before any packet of it exists.
pub trait Packet: BinaryStream {
    /// Whether the transport may compress packets of this type.
    spec fn is_compressible() -> bool;

    /// The identifier of the type, which fits in ten bits.
    spec fn packet_id() -> u32;

    /// The packet of this type whose fields all hold their default, as a
    /// member of the union.
    spec fn prototype() -> PacketKindView;

    /// The packet `v` of this type as a member of the union.
    spec fn wrap(v: Self::V) -> PacketKindView;

    /// Decoding by the prototype of this type is decoding a packet of this
    /// type.
    proof fn lemma_prototype(input: Seq<u8>)
        ensures
            Self::packet_id() <= 0x3ff,
            kind_parse(Self::prototype(), input) == (Parsed {
                outcome: match Self::parse(input).outcome {
                    Ok(v) => Ok(Self::wrap(v)),
                    Err(e) => Err(e),
                },
                consumed: Self::parse(input).consumed,
            }),
    ;

    /// Whether the transport may compress packets of this type.
    fn compressible() -> (b: bool)
        ensures
            b == Self::is_compressible(),
    ;

    /// The identifier of the type.
    fn id() -> (id: u32)
        ensures
            id == Self::packet_id(),
            id <= 0x3ff,
    ;

    /// The packet of this type whose fields all hold their default, as a
    /// member of the union.
    fn kind() -> (k: PacketKind)
        ensures
            k@ == Self::prototype(),
    ;
}

/// A packet of any of the known types.
#[derive(Debug, PartialEq, Eq)]
pub enum PacketKind {
    RequestNetworkSettings(RequestNetworkSettingsPacket),
    NetworkSettings(NetworkSettingsPacket),
    Login(LoginPacket),
    PlayStatus(PlayStatusPacket),
    ActorEvent(ActorEventPacket),
    ActorPickRequest(ActorPickRequestPacket),
}

/// A packet of any of the known types, as a plain value.
pub enum PacketKindView {
    RequestNetworkSettings(RequestNetworkSettingsPacket),
    NetworkSettings(NetworkSettingsPacket),
    Login(LoginPacketView),
    PlayStatus(PlayStatusPacket),
    ActorEvent(ActorEventPacket),
    ActorPickRequest(ActorPickRequestPacket),
}

impl View for PacketKind {
    type V = PacketKindView;

    open spec fn view(&self) -> PacketKindView {
        match self {
            PacketKind::RequestNetworkSettings(pk) => PacketKindView::RequestNetworkSettings(pk@),
            PacketKind::NetworkSettings(pk) => PacketKindView::NetworkSettings(pk@),
            PacketKind::Login(pk) => PacketKindView::Login(pk@),
            PacketKind::PlayStatus(pk) => PacketKindView::PlayStatus(pk@),
            PacketKind::ActorEvent(pk) => PacketKindView::ActorEvent(pk@),
            PacketKind::ActorPickRequest(pk) => PacketKindView::ActorPickRequest(pk@),
        }
    }
}

/// Sent by the client to ask the server for the network settings, such as
/// compression.
#[derive(Clone, Copy, Debug, PartialEq, Eq, Structural)]
pub struct RequestNetworkSettingsPacket {
    /// The protocol version of the player.
    pub client_protocol: i32,
}

impl View for RequestNetworkSettingsPacket {
    type V = RequestNetworkSettingsPacket;

    open spec fn view(&self) -> RequestNetworkSettingsPacket {
        *self
    }
}

impl Default for RequestNetworkSettingsPacket {
    fn default() -> (r: Self)
        ensures
            r@ == (RequestNetworkSettingsPacket {
                client_protocol: 0,
            }),
    {
        RequestNetworkSettingsPacket {
            client_protocol: 0,
        }
    }
}

impl Packet for RequestNetworkSettingsPacket {
    open spec fn is_compressible() -> bool {
        false
    }

    open spec fn packet_id() -> u32 {
        0xc1
    }

    open spec fn prototype() -> PacketKindView {
        PacketKindView::RequestNetworkSettings(
            RequestNetworkSettingsPacket {
                client_protocol: 0,
            },
        )
    }

    open spec fn wrap(v: RequestNetworkSettingsPacket) -> PacketKindView {
        PacketKindView::RequestNetworkSettings(v)
    }

    proof fn lemma_prototype(input: Seq<u8>) {
        reveal(kind_parse);
    }

    fn compressible() -> (b: bool) {
        false
    }

    fn id() -> (id: u32) {
        0xc1
    }

    fn kind() -> (k: PacketKind) {
        PacketKind::RequestNetworkSettings(RequestNetworkSettingsPacket::default())
    }
}

impl BinaryStream for RequestNetworkSettingsPacket {
    open spec fn wire(v: RequestNetworkSettingsPacket) -> Seq<u8> {
        int_wire(IntType::I32, varint(), v.client_protocol as int)
    }

    open spec fn parse(input: Seq<u8>) -> Parsed<RequestNetworkSettingsPacket> {
        let f0 = parse_i32(varint(), input);
        if f0.outcome is Err {
            failed(0, f0)
        } else {
            Parsed {
                outcome: Ok(
                    RequestNetworkSettingsPacket {
                        client_protocol: f0.outcome->Ok_0,
                    },
                ),
                consumed: f0.consumed,
            }
        }
    }

    open spec fn encodable(v: RequestNetworkSettingsPacket) -> bool {
        true
    }

    proof fn lemma_round_trip(v: RequestNetworkSettingsPacket, rest: Seq<u8>) {
        let all = Self::wire(v) + rest;
        let w0 = int_wire(IntType::I32, varint(), v.client_protocol as int);
        let tail0 = rest;
        let pre0 = w0;
        assert(all == w0 + tail0) by {
            assert(all =~= w0 + tail0);
        }
        assert(parse_i32(varint(), all) == (Parsed {
            outcome: Ok::<i32, DecodeError>(v.client_protocol),
            consumed: w0.len(),
        })) by {
            lemma_int_round_trip(IntType::I32, varint(), v.client_protocol as int, tail0);
        }
    }

    proof fn lemma_consumed(input: Seq<u8>) {
        let f0 = parse_i32(varint(), input);
        lemma_int_parse_consumed(IntType::I32, varint(), input);
    }

    fn read<R: ByteSource>(&mut self, r: &mut R) -> (res: Result<(), DecodeError>) {
        let ghost input = r.pending();
        let ghost at0: nat = 0;
        let ghost f0 = parse_i32(varint(), input.skip(at0 as int));
        proof {
            assert(input.skip(0) =~= input);
            lemma_int_parse_consumed(IntType::I32, varint(), input.skip(at0 as int));
            lemma_skip_more(input, at0, f0.consumed);
        }
        let client_protocol = match r.read_vi32() {
            Ok(v) => v,
            Err(e) => {
                return Err(e);
            },
        };
        self.client_protocol = client_protocol;
        Ok(())
    }

    fn write<W: ByteSink>(&self, w: &mut W) -> (res: Result<(), EncodeError>) {
        let ghost v = self@;
        let ghost empty = Seq::<u8>::empty();
        let ghost w0 = int_wire(IntType::I32, varint(), v.client_protocol as int);
        assert(old(w).written() + empty =~= old(w).written());
        let ghost done0 = empty;
        let ghost rest0 = empty;
        assert(Self::wire(v) =~= done0 + w0 + rest0);
        let res0 = w.write_vi32(self.client_protocol);
        proof {
            lemma_write_step(
                old(w).written(),
                old(w).room(),
                done0,
                w0,
                rest0,
                w.written(),
                w.room(),
                res0,
            );
        }
        res0
    }
}

/// Sent by the server to set how packets go over the network.
#[derive(Clone, Copy, Debug, PartialEq, Eq, Structural)]
pub struct NetworkSettingsPacket {
    /// The least size of a packet that is compressed; 0 leaves all of them
    /// uncompressed.
    pub compression_threshold: u16,
    /// The algorithm that compresses packets.
    pub compression_algorithm: CompressionAlgorithm,
    /// Whether the client throttles players beyond the threshold.
    pub client_throttle: bool,
    /// The number of players from which the client throttles.
    pub client_throttle_threshold: u8,
    /// The share of players that are ticked while throttling: the bits of a
    /// single-precision number.
    pub client_throttle_scalar: u32,
}

impl View for NetworkSettingsPacket {
    type V = NetworkSettingsPacket;

    open spec fn view(&self) -> NetworkSettingsPacket {
        *self
    }
}

impl Default for NetworkSettingsPacket {
    fn default() -> (r: Self)
        ensures
            r@ == (NetworkSettingsPacket {
                compression_threshold: 0,
                compression_algorithm: CompressionAlgorithm::NoCompression,
                client_throttle: false,
                client_throttle_threshold: 0,
                client_throttle_scalar: 0,
            }),
    {
        NetworkSettingsPacket {
            compression_threshold: 0,
            compression_algorithm: CompressionAlgorithm::default(),
            client_throttle: false,
            client_throttle_threshold: 0,
            client_throttle_scalar: 0,
        }
    }
}

impl Packet for NetworkSettingsPacket {
    open spec fn is_compressible() -> bool {
        false
    }

    open spec fn packet_id() -> u32 {
        0x8f
    }

    open spec fn prototype() -> PacketKindView {
        PacketKindView::NetworkSettings(
            NetworkSettingsPacket {
                compression_threshold: 0,
                compression_algorithm: CompressionAlgorithm::NoCompression,
                client_throttle: false,
                client_throttle_threshold: 0,
                client_throttle_scalar: 0,
            },
        )
    }

    open spec fn wrap(v: NetworkSettingsPacket) -> PacketKindView {
        PacketKindView::NetworkSettings(v)
    }

    proof fn lemma_prototype(input: Seq<u8>) {
        reveal(kind_parse);
    }

    fn compressible() -> (b: bool) {
        false
    }

    fn id() -> (id: u32) {
        0x8f
    }

    fn kind() -> (k: PacketKind) {
        PacketKind::NetworkSettings(NetworkSettingsPacket::default())
    }
}

impl BinaryStream for NetworkSettingsPacket {
    open spec fn wire(v: NetworkSettingsPacket) -> Seq<u8> {
        int_wire(IntType::U16, fixed_width(Endianness::Little), v.compression_threshold as int)
            + enum_wire(v.compression_algorithm)
            + bool_wire(v.client_throttle)
            + seq![v.client_throttle_threshold]
            + int_wire(
                IntType::U32,
                fixed_width(Endianness::Little),
                v.client_throttle_scalar as int,
            )
    }

    open spec fn parse(input: Seq<u8>) -> Parsed<NetworkSettingsPacket> {
        let f0 = parse_u16(fixed_width(Endianness::Little), input);
        let at1 = f0.consumed;
        let f1 = enum_parse::<CompressionAlgorithm>(input.skip(at1 as int));
        let at2 = at1 + f1.consumed;
        let f2 = parse_bool(input.skip(at2 as int));
        let at3 = at2 + f2.consumed;
        let f3 = parse_u8(input.skip(at3 as int));
        let at4 = at3 + f3.consumed;
        let f4 = parse_u32(fixed_width(Endianness::Little), input.skip(at4 as int));
        if f0.outcome is Err {
            failed(0, f0)
        } else if f1.outcome is Err {
            failed(at1, f1)
        } else if f2.outcome is Err {
            failed(at2, f2)
        } else if f3.outcome is Err {
            failed(at3, f3)
        } else if f4.outcome is Err {
            failed(at4, f4)
        } else {
            Parsed {
                outcome: Ok(
                    NetworkSettingsPacket {
                        compression_threshold: f0.outcome->Ok_0,
                        compression_algorithm: f1.outcome->Ok_0,
                        client_throttle: f2.outcome->Ok_0,
                        client_throttle_threshold: f3.outcome->Ok_0,
                        client_throttle_scalar: f4.outcome->Ok_0,
                    },
                ),
                consumed: at4 + f4.consumed,
            }
        }
    }

    open spec fn encodable(v: NetworkSettingsPacket) -> bool {
        true
    }

    proof fn lemma_round_trip(v: NetworkSettingsPacket, rest: Seq<u8>) {
        let all = Self::wire(v) + rest;
        let w0 = int_wire(
            IntType::U16,
            fixed_width(Endianness::Little),
            v.compression_threshold as int,
        );
        let w1 = enum_wire(v.compression_algorithm);
        let w2 = bool_wire(v.client_throttle);
        let w3 = seq![v.client_throttle_threshold];
        let w4 = int_wire(
            IntType::U32,
            fixed_width(Endianness::Little),
            v.client_throttle_scalar as int,
        );
        let tail4 = rest;
        let tail3 = w4 + tail4;
        let tail2 = w3 + tail3;
        let tail1 = w2 + tail2;
        let tail0 = w1 + tail1;
        let pre0 = w0;
        let pre1 = pre0 + w1;
        let pre2 = pre1 + w2;
        let pre3 = pre2 + w3;
        let pre4 = pre3 + w4;
        let n1 = w0.len();
        let n2 = n1 + w1.len();
        let n3 = n2 + w2.len();
        let n4 = n3 + w3.len();
        assert(all == w0 + tail0) by {
            assert(all =~= w0 + tail0);
        }
        assert(parse_u16(fixed_width(Endianness::Little), all) == (Parsed {
            outcome: Ok::<u16, DecodeError>(v.compression_threshold),
            consumed: w0.len(),
        })) by {
            lemma_int_round_trip(
                IntType::U16,
                fixed_width(Endianness::Little),
                v.compression_threshold as int,
                tail0,
            );
        }
        assert(all.skip(n1 as int) == w1 + tail1) by {
            assert(all =~= pre0 + tail0);
            assert((pre0 + tail0).skip(pre0.len() as int) =~= tail0);
        }
        assert(enum_parse::<CompressionAlgorithm>(all.skip(n1 as int)) == (Parsed {
            outcome: Ok::<CompressionAlgorithm, DecodeError>(v.compression_algorithm),
            consumed: w1.len(),
        })) by {
            lemma_enum_round_trip(v.compression_algorithm, tail1);
        }
        assert(all.skip(n2 as int) == w2 + tail2) by {
            assert(all =~= pre1 + tail1);
            assert((pre1 + tail1).skip(pre1.len() as int) =~= tail1);
        }
        assert(parse_bool(all.skip(n2 as int)) == (Parsed {
            outcome: Ok::<bool, DecodeError>(v.client_throttle),
            consumed: w2.len(),
        })) by {
            lemma_byte_round_trip(v.client_throttle, 0, 0, tail2);
        }
        assert(all.skip(n3 as int) == w3 + tail3) by {
            assert(all =~= pre2 + tail2);
            assert((pre2 + tail2).skip(pre2.len() as int) =~= tail2);
        }
        assert(parse_u8(all.skip(n3 as int)) == (Parsed {
            outcome: Ok::<u8, DecodeError>(v.client_throttle_threshold),
            consumed: w3.len(),
        })) by {
            lemma_byte_round_trip(false, v.client_throttle_threshold, 0, tail3);
        }
        assert(all.skip(n4 as int) == w4 + tail4) by {
            assert(all =~= pre3 + tail3);
            assert((pre3 + tail3).skip(pre3.len() as int) =~= tail3);
        }
        assert(parse_u32(fixed_width(Endianness::Little), all.skip(n4 as int)) == (Parsed {
            outcome: Ok::<u32, DecodeError>(v.client_throttle_scalar),
            consumed: w4.len(),
        })) by {
            lemma_int_round_trip(
                IntType::U32,
                fixed_width(Endianness::Little),
                v.client_throttle_scalar as int,
                tail4,
            );
        }
    }

    proof fn lemma_consumed(input: Seq<u8>) {
        let f0 = parse_u16(fixed_width(Endianness::Little), input);
        lemma_int_parse_consumed(IntType::U16, fixed_width(Endianness::Little), input);
        let at1 = f0.consumed;
        let f1 = enum_parse::<CompressionAlgorithm>(input.skip(at1 as int));
        lemma_enum_parse_consumed::<CompressionAlgorithm>(input.skip(at1 as int));
        let at2 = at1 + f1.consumed;
        let f2 = parse_bool(input.skip(at2 as int));
        let at3 = at2 + f2.consumed;
        let f3 = parse_u8(input.skip(at3 as int));
        let at4 = at3 + f3.consumed;
        let f4 = parse_u32(fixed_width(Endianness::Little), input.skip(at4 as int));
        lemma_int_parse_consumed(
            IntType::U32,
            fixed_width(Endianness::Little),
            input.skip(at4 as int),
        );
    }

    fn read<R: ByteSource>(&mut self, r: &mut R) -> (res: Result<(), DecodeError>) {
        let ghost input = r.pending();
        let ghost at0: nat = 0;
        let ghost f0 = parse_u16(fixed_width(Endianness::Little), input.skip(at0 as int));
        proof {
            assert(input.skip(0) =~= input);
            lemma_int_parse_consumed(
                IntType::U16,
                fixed_width(Endianness::Little),
                input.skip(at0 as int),
            );
            lemma_skip_more(input, at0, f0.consumed);
        }
        let compression_threshold = match r.read_u16(Endianness::Little) {
            Ok(v) => v,
            Err(e) => {
                return Err(e);
            },
        };
        let ghost at1: nat = at0 + f0.consumed;
        let ghost f1 = enum_parse::<CompressionAlgorithm>(input.skip(at1 as int));
        proof {
            lemma_enum_parse_consumed::<CompressionAlgorithm>(input.skip(at1 as int));
            lemma_skip_more(input, at1, f1.consumed);
        }
        let compression_algorithm = match CompressionAlgorithm::read(r) {
            Ok(v) => v,
            Err(e) => {
                return Err(e);
            },
        };
        let ghost at2: nat = at1 + f1.consumed;
        let ghost f2 = parse_bool(input.skip(at2 as int));
        proof {
            lemma_skip_more(input, at2, f2.consumed);
        }
        let client_throttle = match r.read_bool() {
            Ok(v) => v,
            Err(e) => {
                return Err(e);
            },
        };
        let ghost at3: nat = at2 + f2.consumed;
        let ghost f3 = parse_u8(input.skip(at3 as int));
        proof {
            lemma_skip_more(input, at3, f3.consumed);
        }
        let client_throttle_threshold = match r.read_u8() {
            Ok(v) => v,
            Err(e) => {
                return Err(e);
            },
        };
        let ghost at4: nat = at3 + f3.consumed;
        let ghost f4 = parse_u32(fixed_width(Endianness::Little), input.skip(at4 as int));
        proof {
            lemma_int_parse_consumed(
                IntType::U32,
                fixed_width(Endianness::Little),
                input.skip(at4 as int),
            );
            lemma_skip_more(input, at4, f4.consumed);
        }
        let client_throttle_scalar = match r.read_u32(Endianness::Little) {
            Ok(v) => v,
            Err(e) => {
                return Err(e);
            },
        };
        self.compression_threshold = compression_threshold;
        self.compression_algorithm = compression_algorithm;
        self.client_throttle = client_throttle;
        self.client_throttle_threshold = client_throttle_threshold;
        self.client_throttle_scalar = client_throttle_scalar;
        Ok(())
    }

    fn write<W: ByteSink>(&self, w: &mut W) -> (res: Result<(), EncodeError>) {
        let ghost v = self@;
        let ghost empty = Seq::<u8>::empty();
        let ghost w0 = int_wire(
            IntType::U16,
            fixed_width(Endianness::Little),
            v.compression_threshold as int,
        );
        let ghost w1 = enum_wire(v.compression_algorithm);
        let ghost w2 = bool_wire(v.client_throttle);
        let ghost w3 = seq![v.client_throttle_threshold];
        let ghost w4 = int_wire(
            IntType::U32,
            fixed_width(Endianness::Little),
            v.client_throttle_scalar as int,
        );
        assert(old(w).written() + empty =~= old(w).written());
        let ghost done0 = empty;
        let ghost rest0 = w1 + w2 + w3 + w4;
        assert(Self::wire(v) =~= done0 + w0 + rest0);
        let res0 = w.write_u16(self.compression_threshold, Endianness::Little);
        proof {
            lemma_write_step(
                old(w).written(),
                old(w).room(),
                done0,
                w0,
                rest0,
                w.written(),
                w.room(),
                res0,
            );
        }
        if res0.is_err() {
            return res0;
        }
        let ghost done1 = w0;
        let ghost rest1 = w2 + w3 + w4;
        assert(Self::wire(v) =~= done1 + w1 + rest1);
        let res1 = self.compression_algorithm.write(w);
        proof {
            lemma_write_step(
                old(w).written(),
                old(w).room(),
                done1,
                w1,
                rest1,
                w.written(),
                w.room(),
                res1,
            );
        }
        if res1.is_err() {
            return res1;
        }
        let ghost done2 = w0 + w1;
        let ghost rest2 = w3 + w4;
        assert(Self::wire(v) =~= done2 + w2 + rest2);
        let res2 = w.write_bool(self.client_throttle);
        proof {
            lemma_write_step(
                old(w).written(),
                old(w).room(),
                done2,
                w2,
                rest2,
                w.written(),
                w.room(),
                res2,
            );
        }
        if res2.is_err() {
            return res2;
        }
        let ghost done3 = w0 + w1 + w2;
        let ghost rest3 = w4;
        assert(Self::wire(v) =~= done3 + w3 + rest3);
        let res3 = w.write_u8(self.client_throttle_threshold);
        proof {
            lemma_write_step(
                old(w).written(),
                old(w).room(),
                done3,
                w3,
                rest3,
                w.written(),
                w.room(),
                res3,
            );
        }
        if res3.is_err() {
            return res3;
        }
        let ghost done4 = w0 + w1 + w2 + w3;
        let ghost rest4 = empty;
        assert(Self::wire(v) =~= done4 + w4 + rest4);
        let res4 = w.write_u32(self.client_throttle_scalar, Endianness::Little);
        proof {
            lemma_write_step(
                old(w).written(),
                old(w).room(),
                done4,
                w4,
                rest4,
                w.written(),
                w.room(),
                res4,
            );
        }
        res4
    }
}

/// Sent by the client when it first tries to join the server.
#[derive(Debug, PartialEq, Eq)]
pub struct LoginPacket {
    /// The protocol version of the player.
    pub client_protocol: i32,
    /// What the player says of itself, with the tokens that prove it.
    pub connection_request: Vu32LenByteSlice,
}

/// A `LoginPacket` as a plain value.
pub struct LoginPacketView {
    pub client_protocol: i32,
    pub connection_request: Seq<u8>,
}

impl View for LoginPacket {
    type V = LoginPacketView;

    open spec fn view(&self) -> LoginPacketView {
        LoginPacketView {
            client_protocol: self.client_protocol,
            connection_request: self.connection_request@,
        }
    }
}

impl Clone for LoginPacket {
    fn clone(&self) -> (r: Self)
        ensures
            r@ == self@,
    {
        LoginPacket {
            client_protocol: self.client_protocol,
            connection_request: self.connection_request.clone(),
        }
    }
}

impl Default for LoginPacket {
    fn default() -> (r: Self)
        ensures
            r@ == (LoginPacketView {
                client_protocol: 0,
                connection_request: Seq::<u8>::empty(),
            }),
    {
        LoginPacket {
            client_protocol: 0,
            connection_request: Vu32LenByteSlice::default(),
        }
    }
}

impl Packet for LoginPacket {
    open spec fn is_compressible() -> bool {
        true
    }

    open spec fn packet_id() -> u32 {
        0x01
    }

    open spec fn prototype() -> PacketKindView {
        PacketKindView::Login(
            LoginPacketView {
                client_protocol: 0,
                connection_request: Seq::<u8>::empty(),
            },
        )
    }

    open spec fn wrap(v: LoginPacketView) -> PacketKindView {
        PacketKindView::Login(v)
    }

    proof fn lemma_prototype(input: Seq<u8>) {
        reveal(kind_parse);
    }

    fn compressible() -> (b: bool) {
        true
    }

    fn id() -> (id: u32) {
        0x01
    }

    fn kind() -> (k: PacketKind) {
        PacketKind::Login(LoginPacket::default())
    }
}

impl BinaryStream for LoginPacket {
    open spec fn wire(v: LoginPacketView) -> Seq<u8> {
        int_wire(IntType::I32, fixed_width(Endianness::Little), v.client_protocol as int)
            + blob_wire(v.connection_request)
    }

    open spec fn parse(input: Seq<u8>) -> Parsed<LoginPacketView> {
        let f0 = parse_i32(fixed_width(Endianness::Little), input);
        let at1 = f0.consumed;
        let f1 = blob_parse(input.skip(at1 as int));
        if f0.outcome is Err {
            failed(0, f0)
        } else if f1.outcome is Err {
            failed(at1, f1)
        } else {
            Parsed {
                outcome: Ok(
                    LoginPacketView {
                        client_protocol: f0.outcome->Ok_0,
                        connection_request: f1.outcome->Ok_0,
                    },
                ),
                consumed: at1 + f1.consumed,
            }
        }
    }

    open spec fn encodable(v: LoginPacketView) -> bool {
        v.connection_request.len() <= u32::MAX
    }

    proof fn lemma_round_trip(v: LoginPacketView, rest: Seq<u8>) {
        let all = Self::wire(v) + rest;
        let w0 = int_wire(IntType::I32, fixed_width(Endianness::Little), v.client_protocol as int);
        let w1 = blob_wire(v.connection_request);
        let tail1 = rest;
        let tail0 = w1 + tail1;
        let pre0 = w0;
        let pre1 = pre0 + w1;
        let n1 = w0.len();
        assert(all == w0 + tail0) by {
            assert(all =~= w0 + tail0);
        }
        assert(parse_i32(fixed_width(Endianness::Little), all) == (Parsed {
            outcome: Ok::<i32, DecodeError>(v.client_protocol),
            consumed: w0.len(),
        })) by {
            lemma_int_round_trip(
                IntType::I32,
                fixed_width(Endianness::Little),
                v.client_protocol as int,
                tail0,
            );
        }
        assert(all.skip(n1 as int) == w1 + tail1) by {
            assert(all =~= pre0 + tail0);
            assert((pre0 + tail0).skip(pre0.len() as int) =~= tail0);
        }
        assert(blob_parse(all.skip(n1 as int)) == (Parsed {
            outcome: Ok::<Seq<u8>, DecodeError>(v.connection_request),
            consumed: w1.len(),
        })) by {
            lemma_blob_round_trip(v.connection_request, tail1);
        }
    }

    proof fn lemma_consumed(input: Seq<u8>) {
        let f0 = parse_i32(fixed_width(Endianness::Little), input);
        lemma_int_parse_consumed(IntType::I32, fixed_width(Endianness::Little), input);
        let at1 = f0.consumed;
        let f1 = blob_parse(input.skip(at1 as int));
        lemma_blob_parse_consumed(input.skip(at1 as int));
    }

    fn read<R: ByteSource>(&mut self, r: &mut R) -> (res: Result<(), DecodeError>) {
        let ghost input = r.pending();
        let ghost at0: nat = 0;
        let ghost f0 = parse_i32(fixed_width(Endianness::Little), input.skip(at0 as int));
        proof {
            assert(input.skip(0) =~= input);
            lemma_int_parse_consumed(
                IntType::I32,
                fixed_width(Endianness::Little),
                input.skip(at0 as int),
            );
            lemma_skip_more(input, at0, f0.consumed);
        }
        let client_protocol = match r.read_i32(Endianness::Little) {
            Ok(v) => v,
            Err(e) => {
                return Err(e);
            },
        };
        let ghost at1: nat = at0 + f0.consumed;
        let ghost f1 = blob_parse(input.skip(at1 as int));
        proof {
            lemma_blob_parse_consumed(input.skip(at1 as int));
            lemma_skip_more(input, at1, f1.consumed);
        }
        let connection_request = match Vu32LenByteSlice::read(r) {
            Ok(v) => v,
            Err(e) => {
                return Err(e);
            },
        };
        self.client_protocol = client_protocol;
        self.connection_request = connection_request;
        Ok(())
    }

    fn write<W: ByteSink>(&self, w: &mut W) -> (res: Result<(), EncodeError>) {
        let ghost v = self@;
        let ghost empty = Seq::<u8>::empty();
        let ghost w0 = int_wire(
            IntType::I32,
            fixed_width(Endianness::Little),
            v.client_protocol as int,
        );
        let ghost w1 = blob_wire(v.connection_request);
        assert(old(w).written() + empty =~= old(w).written());
        let ghost done0 = empty;
        let ghost rest0 = w1;
        assert(Self::wire(v) =~= done0 + w0 + rest0);
        let res0 = w.write_i32(self.client_protocol, Endianness::Little);
        proof {
            lemma_write_step(
                old(w).written(),
                old(w).room(),
                done0,
                w0,
                rest0,
                w.written(),
                w.room(),
                res0,
            );
        }
        if res0.is_err() {
            return res0;
        }
        let ghost done1 = w0;
        let ghost rest1 = empty;
        assert(Self::wire(v) =~= done1 + w1 + rest1);
        let res1 = self.connection_request.write(w);
        proof {
            lemma_write_step(
                old(w).written(),
                old(w).room(),
                done1,
                w1,
                rest1,
                w.written(),
                w.room(),
                res1,
            );
        }
        res1
    }
}

/// Sent by the server to tell a player how its login went.
#[derive(Clone, Copy, Debug, PartialEq, Eq, Structural)]
pub struct PlayStatusPacket {
    /// The status.
    pub status: PlayStatus,
}

impl View for PlayStatusPacket {
    type V = PlayStatusPacket;

    open spec fn view(&self) -> PlayStatusPacket {
        *self
    }
}

impl Default for PlayStatusPacket {
    fn default() -> (r: Self)
        ensures
            r@ == (PlayStatusPacket {
                status: PlayStatus::LoginSuccess,
            }),
    {
        PlayStatusPacket {
            status: PlayStatus::default(),
        }
    }
}

impl Packet for PlayStatusPacket {
    open spec fn is_compressible() -> bool {
        true
    }

    open spec fn packet_id() -> u32 {
        0x02
    }

    open spec fn prototype() -> PacketKindView {
        PacketKindView::PlayStatus(
            PlayStatusPacket {
                status: PlayStatus::LoginSuccess,
            },
        )
    }

    open spec fn wrap(v: PlayStatusPacket) -> PacketKindView {
        PacketKindView::PlayStatus(v)
    }

    proof fn lemma_prototype(input: Seq<u8>) {
        reveal(kind_parse);
    }

    fn compressible() -> (b: bool) {
        true
    }

    fn id() -> (id: u32) {
        0x02
    }

    fn kind() -> (k: PacketKind) {
        PacketKind::PlayStatus(PlayStatusPacket::default())
    }
}

impl BinaryStream for PlayStatusPacket {
    open spec fn wire(v: PlayStatusPacket) -> Seq<u8> {
        enum_wire(v.status)
    }

    open spec fn parse(input: Seq<u8>) -> Parsed<PlayStatusPacket> {
        let f0 = enum_parse::<PlayStatus>(input);
        if f0.outcome is Err {
            failed(0, f0)
        } else {
            Parsed {
                outcome: Ok(
                    PlayStatusPacket {
                        status: f0.outcome->Ok_0,
                    },
                ),
                consumed: f0.consumed,
            }
        }
    }

    open spec fn encodable(v: PlayStatusPacket) -> bool {
        true
    }

    proof fn lemma_round_trip(v: PlayStatusPacket, rest: Seq<u8>) {
        let all = Self::wire(v) + rest;
        let w0 = enum_wire(v.status);
        let tail0 = rest;
        let pre0 = w0;
        assert(all == w0 + tail0) by {
            assert(all =~= w0 + tail0);
        }
        assert(enum_parse::<PlayStatus>(all) == (Parsed {
            outcome: Ok::<PlayStatus, DecodeError>(v.status),
            consumed: w0.len(),
        })) by {
            lemma_enum_round_trip(v.status, tail0);
        }
    }

    proof fn lemma_consumed(input: Seq<u8>) {
        let f0 = enum_parse::<PlayStatus>(input);
        lemma_enum_parse_consumed::<PlayStatus>(input);
    }

    fn read<R: ByteSource>(&mut self, r: &mut R) -> (res: Result<(), DecodeError>) {
        let ghost input = r.pending();
        let ghost at0: nat = 0;
        let ghost f0 = enum_parse::<PlayStatus>(input.skip(at0 as int));
        proof {
            assert(input.skip(0) =~= input);
            lemma_enum_parse_consumed::<PlayStatus>(input.skip(at0 as int));
            lemma_skip_more(input, at0, f0.consumed);
        }
        let status = match PlayStatus::read(r) {
            Ok(v) => v,
            Err(e) => {
                return Err(e);
            },
        };
        self.status = status;
        Ok(())
    }

    fn write<W: ByteSink>(&self, w: &mut W) -> (res: Result<(), EncodeError>) {
        let ghost v = self@;
        let ghost empty = Seq::<u8>::empty();
        let ghost w0 = enum_wire(v.status);
        assert(old(w).written() + empty =~= old(w).written());
        let ghost done0 = empty;
        let ghost rest0 = empty;
        assert(Self::wire(v) =~= done0 + w0 + rest0);
        let res0 = self.status.write(w);
        proof {
            lemma_write_step(
                old(w).written(),
                old(w).room(),
                done0,
                w0,
                rest0,
                w.written(),
                w.room(),
                res0,
            );
        }
        res0
    }
}

/// Sent by the server when an event happens that has to do with an entity.
#[derive(Clone, Copy, Debug, PartialEq, Eq, Structural)]
pub struct ActorEventPacket {
    /// The runtime identifier of the entity.
    pub entity_runtime_id: ActorEvent,
    /// The identifier of the event.
    pub event_type: u8,
    /// Data that goes with the event, which most events do not use.
    pub event_data: u32,
}

impl View for ActorEventPacket {
    type V = ActorEventPacket;

    open spec fn view(&self) -> ActorEventPacket {
        *self
    }
}

impl Default for ActorEventPacket {
    fn default() -> (r: Self)
        ensures
            r@ == (ActorEventPacket {
                entity_runtime_id: ActorEvent::JUMP,
                event_type: 0,
                event_data: 0,
            }),
    {
        ActorEventPacket {
            entity_runtime_id: ActorEvent::default(),
            event_type: 0,
            event_data: 0,
        }
    }
}

impl Packet for ActorEventPacket {
    open spec fn is_compressible() -> bool {
        true
    }

    open spec fn packet_id() -> u32 {
        0x1b
    }

    open spec fn prototype() -> PacketKindView {
        PacketKindView::ActorEvent(
            ActorEventPacket {
                entity_runtime_id: ActorEvent::JUMP,
                event_type: 0,
                event_data: 0,
            },
        )
    }

    open spec fn wrap(v: ActorEventPacket) -> PacketKindView {
        PacketKindView::ActorEvent(v)
    }

    proof fn lemma_prototype(input: Seq<u8>) {
        reveal(kind_parse);
    }

    fn compressible() -> (b: bool) {
        true
    }

    fn id() -> (id: u32) {
        0x1b
    }

    fn kind() -> (k: PacketKind) {
        PacketKind::ActorEvent(ActorEventPacket::default())
    }
}

impl BinaryStream for ActorEventPacket {
    open spec fn wire(v: ActorEventPacket) -> Seq<u8> {
        enum_wire(v.entity_runtime_id)
            + seq![v.event_type]
            + int_wire(IntType::U32, varint(), v.event_data as int)
    }

    open spec fn parse(input: Seq<u8>) -> Parsed<ActorEventPacket> {
        let f0 = enum_parse::<ActorEvent>(input);
        let at1 = f0.consumed;
        let f1 = parse_u8(input.skip(at1 as int));
        let at2 = at1 + f1.consumed;
        let f2 = parse_u32(varint(), input.skip(at2 as int));
        if f0.outcome is Err {
            failed(0, f0)
        } else if f1.outcome is Err {
            failed(at1, f1)
        } else if f2.outcome is Err {
            failed(at2, f2)
        } else {
            Parsed {
                outcome: Ok(
                    ActorEventPacket {
                        entity_runtime_id: f0.outcome->Ok_0,
                        event_type: f1.outcome->Ok_0,
                        event_data: f2.outcome->Ok_0,
                    },
                ),
                consumed: at2 + f2.consumed,
            }
        }
    }

    open spec fn encodable(v: ActorEventPacket) -> bool {
        true
    }

    proof fn lemma_round_trip(v: ActorEventPacket, rest: Seq<u8>) {
        let all = Self::wire(v) + rest;
        let w0 = enum_wire(v.entity_runtime_id);
        let w1 = seq![v.event_type];
        let w2 = int_wire(IntType::U32, varint(), v.event_data as int);
        let tail2 = rest;
        let tail1 = w2 + tail2;
        let tail0 = w1 + tail1;
        let pre0 = w0;
        let pre1 = pre0 + w1;
        let pre2 = pre1 + w2;
        let n1 = w0.len();
        let n2 = n1 + w1.len();
        assert(all == w0 + tail0) by {
            assert(all =~= w0 + tail0);
        }
        assert(enum_parse::<ActorEvent>(all) == (Parsed {
            outcome: Ok::<ActorEvent, DecodeError>(v.entity_runtime_id),
            consumed: w0.len(),
        })) by {
            lemma_enum_round_trip(v.entity_runtime_id, tail0);
        }
        assert(all.skip(n1 as int) == w1 + tail1) by {
            assert(all =~= pre0 + tail0);
            assert((pre0 + tail0).skip(pre0.len() as int) =~= tail0);
        }
        assert(parse_u8(all.skip(n1 as int)) == (Parsed {
            outcome: Ok::<u8, DecodeError>(v.event_type),
            consumed: w1.len(),
        })) by {
            lemma_byte_round_trip(false, v.event_type, 0, tail1);
        }
        assert(all.skip(n2 as int) == w2 + tail2) by {
            assert(all =~= pre1 + tail1);
            assert((pre1 + tail1).skip(pre1.len() as int) =~= tail1);
        }
        assert(parse_u32(varint(), all.skip(n2 as int)) == (Parsed {
            outcome: Ok::<u32, DecodeError>(v.event_data),
            consumed: w2.len(),
        })) by {
            lemma_int_round_trip(IntType::U32, varint(), v.event_data as int, tail2);
        }
    }

    proof fn lemma_consumed(input: Seq<u8>) {
        let f0 = enum_parse::<ActorEvent>(input);
        lemma_enum_parse_consumed::<ActorEvent>(input);
        let at1 = f0.consumed;
        let f1 = parse_u8(input.skip(at1 as int));
        let at2 = at1 + f1.consumed;
        let f2 = parse_u32(varint(), input.skip(at2 as int));
        lemma_int_parse_consumed(IntType::U32, varint(), input.skip(at2 as int));
    }

    fn read<R: ByteSource>(&mut self, r: &mut R) -> (res: Result<(), DecodeError>) {
        let ghost input = r.pending();
        let ghost at0: nat = 0;
        let ghost f0 = enum_parse::<ActorEvent>(input.skip(at0 as int));
        proof {
            assert(input.skip(0) =~= input);
            lemma_enum_parse_consumed::<ActorEvent>(input.skip(at0 as int));
            lemma_skip_more(input, at0, f0.consumed);
        }
        let entity_runtime_id = match ActorEvent::read(r) {
            Ok(v) => v,
            Err(e) => {
                return Err(e);
            },
        };
        let ghost at1: nat = at0 + f0.consumed;
        let ghost f1 = parse_u8(input.skip(at1 as int));
        proof {
            lemma_skip_more(input, at1, f1.consumed);
        }
        let event_type = match r.read_u8() {
            Ok(v) => v,
            Err(e) => {
                return Err(e);
            },
        };
        let ghost at2: nat = at1 + f1.consumed;
        let ghost f2 = parse_u32(varint(), input.skip(at2 as int));
        proof {
            lemma_int_parse_consumed(IntType::U32, varint(), input.skip(at2 as int));
            lemma_skip_more(input, at2, f2.consumed);
        }
        let event_data = match r.read_vu32() {
            Ok(v) => v,
            Err(e) => {
                return Err(e);
            },
        };
        self.entity_runtime_id = entity_runtime_id;
        self.event_type = event_type;
        self.event_data = event_data;
        Ok(())
    }

    fn write<W: ByteSink>(&self, w: &mut W) -> (res: Result<(), EncodeError>) {
        let ghost v = self@;
        let ghost empty = Seq::<u8>::empty();
        let ghost w0 = enum_wire(v.entity_runtime_id);
        let ghost w1 = seq![v.event_type];
        let ghost w2 = int_wire(IntType::U32, varint(), v.event_data as int);
        assert(old(w).written() + empty =~= old(w).written());
        let ghost done0 = empty;
        let ghost rest0 = w1 + w2;
        assert(Self::wire(v) =~= done0 + w0 + rest0);
        let res0 = self.entity_runtime_id.write(w);
        proof {
            lemma_write_step(
                old(w).written(),
                old(w).room(),
                done0,
                w0,
                rest0,
                w.written(),
                w.room(),
                res0,
            );
        }
        if res0.is_err() {
            return res0;
        }
        let ghost done1 = w0;
        let ghost rest1 = w2;
        assert(Self::wire(v) =~= done1 + w1 + rest1);
        let res1 = w.write_u8(self.event_type);
        proof {
            lemma_write_step(
                old(w).written(),
                old(w).room(),
                done1,
                w1,
                rest1,
                w.written(),
                w.room(),
                res1,
            );
        }
        if res1.is_err() {
            return res1;
        }
        let ghost done2 = w0 + w1;
        let ghost rest2 = empty;
        assert(Self::wire(v) =~= done2 + w2 + rest2);
        let res2 = w.write_vu32(self.event_data);
        proof {
            lemma_write_step(
                old(w).written(),
                old(w).room(),
                done2,
                w2,
                rest2,
                w.written(),
                w.room(),
                res2,
            );
        }
        res2
    }
}

/// Sent by the client when it tries to pick an entity.
#[derive(Clone, Copy, Debug, PartialEq, Eq, Structural)]
pub struct ActorPickRequestPacket {
    /// The unique identifier of the entity that was picked.
    pub entity_unique_id: i64,
    /// The hot bar slot that the player held.
    pub hot_bar_slot: i8,
    /// Whether the entity is asked for with its data.
    pub with_data: bool,
}

impl View for ActorPickRequestPacket {
    type V = ActorPickRequestPacket;

    open spec fn view(&self) -> ActorPickRequestPacket {
        *self
    }
}

impl Default for ActorPickRequestPacket {
    fn default() -> (r: Self)
        ensures
            r@ == (ActorPickRequestPacket {
                entity_unique_id: 0,
                hot_bar_slot: 0,
                with_data: false,
            }),
    {
        ActorPickRequestPacket {
            entity_unique_id: 0,
            hot_bar_slot: 0,
            with_data: false,
        }
    }
}

impl Packet for ActorPickRequestPacket {
    open spec fn is_compressible() -> bool {
        true
    }

    open spec fn packet_id() -> u32 {
        0x23
    }

    open spec fn prototype() -> PacketKindView {
        PacketKindView::ActorPickRequest(
            ActorPickRequestPacket {
                entity_unique_id: 0,
                hot_bar_slot: 0,
                with_data: false,
            },
        )
    }

    open spec fn wrap(v: ActorPickRequestPacket) -> PacketKindView {
        PacketKindView::ActorPickRequest(v)
    }

    proof fn lemma_prototype(input: Seq<u8>) {
        reveal(kind_parse);
    }

    fn compressible() -> (b: bool) {
        true
    }

    fn id() -> (id: u32) {
        0x23
    }

    fn kind() -> (k: PacketKind) {
        PacketKind::ActorPickRequest(ActorPickRequestPacket::default())
    }
}

impl BinaryStream for ActorPickRequestPacket {
    open spec fn wire(v: ActorPickRequestPacket) -> Seq<u8> {
        int_wire(IntType::I64, fixed_width(Endianness::Little), v.entity_unique_id as int)
            + seq![IntType::I8.pattern(v.hot_bar_slot as int) as u8]
            + bool_wire(v.with_data)
    }

    open spec fn parse(input: Seq<u8>) -> Parsed<ActorPickRequestPacket> {
        let f0 = parse_i64(fixed_width(Endianness::Little), input);
        let at1 = f0.consumed;
        let f1 = parse_i8(input.skip(at1 as int));
        let at2 = at1 + f1.consumed;
        let f2 = parse_bool(input.skip(at2 as int));
        if f0.outcome is Err {
            failed(0, f0)
        } else if f1.outcome is Err {
            failed(at1, f1)
        } else if f2.outcome is Err {
            failed(at2, f2)
        } else {
            Parsed {
                outcome: Ok(
                    ActorPickRequestPacket {
                        entity_unique_id: f0.outcome->Ok_0,
                        hot_bar_slot: f1.outcome->Ok_0,
                        with_data: f2.outcome->Ok_0,
                    },
                ),
                consumed: at2 + f2.consumed,
            }
        }
    }

    open spec fn encodable(v: ActorPickRequestPacket) -> bool {
        true
    }

    proof fn lemma_round_trip(v: ActorPickRequestPacket, rest: Seq<u8>) {
        let all = Self::wire(v) + rest;
        let w0 = int_wire(IntType::I64, fixed_width(Endianness::Little), v.entity_unique_id as int);
        let w1 = seq![IntType::I8.pattern(v.hot_bar_slot as int) as u8];
        let w2 = bool_wire(v.with_data);
        let tail2 = rest;
        let tail1 = w2 + tail2;
        let tail0 = w1 + tail1;
        let pre0 = w0;
        let pre1 = pre0 + w1;
        let pre2 = pre1 + w2;
        let n1 = w0.len();
        let n2 = n1 + w1.len();
        assert(all == w0 + tail0) by {
            assert(all =~= w0 + tail0);
        }
        assert(parse_i64(fixed_width(Endianness::Little), all) == (Parsed {
            outcome: Ok::<i64, DecodeError>(v.entity_unique_id),
            consumed: w0.len(),
        })) by {
            lemma_int_round_trip(
                IntType::I64,
                fixed_width(Endianness::Little),
                v.entity_unique_id as int,
                tail0,
            );
        }
        assert(all.skip(n1 as int) == w1 + tail1) by {
            assert(all =~= pre0 + tail0);
            assert((pre0 + tail0).skip(pre0.len() as int) =~= tail0);
        }
        assert(parse_i8(all.skip(n1 as int)) == (Parsed {
            outcome: Ok::<i8, DecodeError>(v.hot_bar_slot),
            consumed: w1.len(),
        })) by {
            lemma_byte_round_trip(false, 0, v.hot_bar_slot, tail1);
        }
        assert(all.skip(n2 as int) == w2 + tail2) by {
            assert(all =~= pre1 + tail1);
            assert((pre1 + tail1).skip(pre1.len() as int) =~= tail1);
        }
        assert(parse_bool(all.skip(n2 as int)) == (Parsed {
            outcome: Ok::<bool, DecodeError>(v.with_data),
            consumed: w2.len(),
        })) by {
            lemma_byte_round_trip(v.with_data, 0, 0, tail2);
        }
    }

    proof fn lemma_consumed(input: Seq<u8>) {
        let f0 = parse_i64(fixed_width(Endianness::Little), input);
        lemma_int_parse_consumed(IntType::I64, fixed_width(Endianness::Little), input);
        let at1 = f0.consumed;
        let f1 = parse_i8(input.skip(at1 as int));
        let at2 = at1 + f1.consumed;
        let f2 = parse_bool(input.skip(at2 as int));
    }

    fn read<R: ByteSource>(&mut self, r: &mut R) -> (res: Result<(), DecodeError>) {
        let ghost input = r.pending();
        let ghost at0: nat = 0;
        let ghost f0 = parse_i64(fixed_width(Endianness::Little), input.skip(at0 as int));
        proof {
            assert(input.skip(0) =~= input);
            lemma_int_parse_consumed(
                IntType::I64,
                fixed_width(Endianness::Little),
                input.skip(at0 as int),
            );
            lemma_skip_more(input, at0, f0.consumed);
        }
        let entity_unique_id = match r.read_i64(Endianness::Little) {
            Ok(v) => v,
            Err(e) => {
                return Err(e);
            },
        };
        let ghost at1: nat = at0 + f0.consumed;
        let ghost f1 = parse_i8(input.skip(at1 as int));
        proof {
            lemma_skip_more(input, at1, f1.consumed);
        }
        let hot_bar_slot = match r.read_i8() {
            Ok(v) => v,
            Err(e) => {
                return Err(e);
            },
        };
        let ghost at2: nat = at1 + f1.consumed;
        let ghost f2 = parse_bool(input.skip(at2 as int));
        proof {
            lemma_skip_more(input, at2, f2.consumed);
        }
        let with_data = match r.read_bool() {
            Ok(v) => v,
            Err(e) => {
                return Err(e);
            },
        };
        self.entity_unique_id = entity_unique_id;
        self.hot_bar_slot = hot_bar_slot;
        self.with_data = with_data;
        Ok(())
    }

    fn write<W: ByteSink>(&self, w: &mut W) -> (res: Result<(), EncodeError>) {
        let ghost v = self@;
        let ghost empty = Seq::<u8>::empty();
        let ghost w0 = int_wire(
            IntType::I64,
            fixed_width(Endianness::Little),
            v.entity_unique_id as int,
        );
        let ghost w1 = seq![IntType::I8.pattern(v.hot_bar_slot as int) as u8];
        let ghost w2 = bool_wire(v.with_data);
        assert(old(w).written() + empty =~= old(w).written());
        let ghost done0 = empty;
        let ghost rest0 = w1 + w2;
        assert(Self::wire(v) =~= done0 + w0 + rest0);
        let res0 = w.write_i64(self.entity_unique_id, Endianness::Little);
        proof {
            lemma_write_step(
                old(w).written(),
                old(w).room(),
                done0,
                w0,
                rest0,
                w.written(),
                w.room(),
                res0,
            );
        }
        if res0.is_err() {
            return res0;
        }
        let ghost done1 = w0;
        let ghost rest1 = w2;
        assert(Self::wire(v) =~= done1 + w1 + rest1);
        let res1 = w.write_i8(self.hot_bar_slot);
        proof {
            lemma_write_step(
                old(w).written(),
                old(w).room(),
                done1,
                w1,
                rest1,
                w.written(),
                w.room(),
                res1,
            );
        }
        if res1.is_err() {
            return res1;
        }
        let ghost done2 = w0 + w1;
        let ghost rest2 = empty;
        assert(Self::wire(v) =~= done2 + w2 + rest2);
        let res2 = w.write_bool(self.with_data);
        proof {
            lemma_write_step(
                old(w).written(),
                old(w).room(),
                done2,
                w2,
                rest2,
                w.written(),
                w.room(),
                res2,
            );
        }
        res2
    }
}

/// What decoding a packet of the type of `kind` makes of `input`.
#[verifier::opaque]
pub open spec fn kind_parse(kind: PacketKindView, input: Seq<u8>) -> Parsed<PacketKindView> {
    match kind {
        PacketKindView::RequestNetworkSettings(_) => {
            let p = RequestNetworkSettingsPacket::parse(input);
            Parsed {
                outcome: match p.outcome {
                    Ok(v) => Ok(PacketKindView::RequestNetworkSettings(v)),
                    Err(e) => Err(e),
                },
                consumed: p.consumed,
            }
        },
        PacketKindView::NetworkSettings(_) => {
            let p = NetworkSettingsPacket::parse(input);
            Parsed {
                outcome: match p.outcome {
                    Ok(v) => Ok(PacketKindView::NetworkSettings(v)),
                    Err(e) => Err(e),
                },
                consumed: p.consumed,
            }
        },
        PacketKindView::Login(_) => {
            let p = LoginPacket::parse(input);
            Parsed {
                outcome: match p.outcome {
                    Ok(v) => Ok(PacketKindView::Login(v)),
                    Err(e) => Err(e),
                },
                consumed: p.consumed,
            }
        },
        PacketKindView::PlayStatus(_) => {
            let p = PlayStatusPacket::parse(input);
            Parsed {
                outcome: match p.outcome {
                    Ok(v) => Ok(PacketKindView::PlayStatus(v)),
                    Err(e) => Err(e),
                },
                consumed: p.consumed,
            }
        },
        PacketKindView::ActorEvent(_) => {
            let p = ActorEventPacket::parse(input);
            Parsed {
                outcome: match p.outcome {
                    Ok(v) => Ok(PacketKindView::ActorEvent(v)),
                    Err(e) => Err(e),
                },
                consumed: p.consumed,
            }
        },
        PacketKindView::ActorPickRequest(_) => {
            let p = ActorPickRequestPacket::parse(input);
            Parsed {
                outcome: match p.outcome {
                    Ok(v) => Ok(PacketKindView::ActorPickRequest(v)),
                    Err(e) => Err(e),
                },
                consumed: p.consumed,
            }
        },
    }
}

/// Decoding a packet takes no more bytes than the input has.
pub proof fn lemma_kind_parse_consumed(kind: PacketKindView, input: Seq<u8>)
    ensures
        kind_parse(kind, input).consumed <= input.len(),
{
    reveal(kind_parse);
    match kind {
        PacketKindView::RequestNetworkSettings(_) => {
            RequestNetworkSettingsPacket::lemma_consumed(input);
        },
        PacketKindView::NetworkSettings(_) => {
            NetworkSettingsPacket::lemma_consumed(input);
        },
        PacketKindView::Login(_) => {
            LoginPacket::lemma_consumed(input);
        },
        PacketKindView::PlayStatus(_) => {
            PlayStatusPacket::lemma_consumed(input);
        },
        PacketKindView::ActorEvent(_) => {
            ActorEventPacket::lemma_consumed(input);
        },
        PacketKindView::ActorPickRequest(_) => {
            ActorPickRequestPacket::lemma_consumed(input);
        },
    }
}

/// The outcome of decoding a packet, with the packet as a plain value.
pub open spec fn kind_outcome(r: Result<PacketKind, DecodeError>) -> Result<
    PacketKindView,
    DecodeError,
> {
    match r {
        Ok(k) => Ok(k@),
        Err(e) => Err(e),
    }
}

/// The outcome of decoding a record, with the record as a plain value.
pub open spec fn record_outcome<T: View>(r: Result<T, DecodeError>) -> Result<T::V, DecodeError> {
    match r {
        Ok(v) => Ok(v@),
        Err(e) => Err(e),
    }
}

/// Decodes a packet of the type of `pk` into a copy of `pk`, which is left
/// as it is.
pub fn decode<T: Packet + Clone, R: ByteSource>(pk: &T, r: &mut R) -> (res: Result<
    T,
    DecodeError,
>)
    ensures
        crate::scalar::reads(
            old(r).pending(),
            final(r).pending(),
            record_outcome(res),
            T::parse(old(r).pending()),
        ),
{
    let mut cpk = pk.clone();
    match cpk.read(r) {
        Ok(()) => Ok(cpk),
        Err(e) => Err(e),
    }
}

/// Decodes a packet of the type of `kind`, which serves as the pattern and
/// is left as it is.
pub fn decode_kind<R: ByteSource>(r: &mut R, kind: &PacketKind) -> (res: Result<
    PacketKind,
    DecodeError,
>)
    ensures
        crate::scalar::reads(
            old(r).pending(),
            final(r).pending(),
            kind_outcome(res),
            kind_parse(kind@, old(r).pending()),
        ),
{
    reveal(kind_parse);
    match kind {
        PacketKind::RequestNetworkSettings(pk) => match decode(pk, r) {
            Ok(v) => Ok(PacketKind::RequestNetworkSettings(v)),
            Err(e) => Err(e),
        },
        PacketKind::NetworkSettings(pk) => match decode(pk, r) {
            Ok(v) => Ok(PacketKind::NetworkSettings(v)),
            Err(e) => Err(e),
        },
        PacketKind::Login(pk) => match decode(pk, r) {
            Ok(v) => Ok(PacketKind::Login(v)),
            Err(e) => Err(e),
        },
        PacketKind::PlayStatus(pk) => match decode(pk, r) {
            Ok(v) => Ok(PacketKind::PlayStatus(v)),
            Err(e) => Err(e),
        },
        PacketKind::ActorEvent(pk) => match decode(pk, r) {
            Ok(v) => Ok(PacketKind::ActorEvent(v)),
            Err(e) => Err(e),
        },
        PacketKind::ActorPickRequest(pk) => match decode(pk, r) {
            Ok(v) => Ok(PacketKind::ActorPickRequest(v)),
            Err(e) => Err(e),
        },
    }
}

} // verus!
