use std::collections::HashMap;

use bstream::error::DecodeError;
use bstream::error::EncodeError;
use bstream::packets::LoginPacket;
use bstream::packets::NetworkSettingsPacket;
use bstream::packets::Packet;
use bstream::packets::PacketKind;
use bstream::packets::PlayStatusPacket;
use bstream::packets::RequestNetworkSettingsPacket;
use bstream::enums::PlayStatus;
use bstream::protocol::DefaultProtocol;
use bstream::protocol::Protocol;
use bstream::protocol::ProtocolId;
use bstream::protocol::ID_MASK;
use bstream::stream::ByteReader;
use bstream::stream::ByteWriter;

fn two_packet_pool(request_first: bool) -> HashMap<u32, PacketKind> {
    let mut pool = HashMap::new();
    if request_first {
        pool.insert(RequestNetworkSettingsPacket::id(), RequestNetworkSettingsPacket::kind());
        pool.insert(NetworkSettingsPacket::id(), NetworkSettingsPacket::kind());
    } else {
        pool.insert(NetworkSettingsPacket::id(), NetworkSettingsPacket::kind());
        pool.insert(RequestNetworkSettingsPacket::id(), RequestNetworkSettingsPacket::kind());
    }
    pool
}

#[test]
fn envelope_dispatch_whatever_the_order_of_the_registry() {
    let pk = RequestNetworkSettingsPacket { client_protocol: 800 };
    let mut w = ByteWriter::new();
    DefaultProtocol::write_packet(&mut w, &pk).unwrap();
    let bytes = w.into_bytes();
    assert_eq!(bytes, vec![0xc1, 0x01, 0xa0, 0x06]);
    for request_first in [true, false] {
        let pool = two_packet_pool(request_first);
        let mut r = ByteReader::new(bytes.clone());
        match DefaultProtocol::read_packet(&pool, &mut r) {
            Ok(PacketKind::RequestNetworkSettings(got)) => assert_eq!(got.client_protocol, 800),
            other => panic!("unexpected {:?}", other),
        }
        assert_eq!(r.remaining(), 0);
    }
}

#[test]
fn unknown_packet_id_is_an_error_that_can_be_handled() {
    let pool = two_packet_pool(true);
    let mut r = ByteReader::new(vec![0xfe, 0x07, 1, 2, 3]);
    assert_eq!(
        DefaultProtocol::read_packet(&pool, &mut r),
        Err(DecodeError::UnknownPacketId { id: 0x3fe })
    );
    assert_eq!(r.remaining(), 3);
    assert_eq!(pool.len(), 2);
}

#[test]
fn header_bits_above_the_identifier_are_ignored() {
    let pool = DefaultProtocol::pool();
    // 0xc1 with the bit above the ten identifier bits set: 0x4c1
    let mut r = ByteReader::new(vec![0xc1, 0x09, 0x05]);
    assert_eq!(
        DefaultProtocol::read_packet(&pool, &mut r),
        Ok(PacketKind::RequestNetworkSettings(RequestNetworkSettingsPacket {
            client_protocol: 5
        }))
    );
    assert_eq!(ID_MASK, 0x3ff);
}

#[test]
fn default_pool_holds_three_patterns() {
    let pool = DefaultProtocol::pool();
    assert_eq!(pool.len(), 3);
    assert_eq!(pool.get(&0xc1), Some(&RequestNetworkSettingsPacket::kind()));
    assert_eq!(pool.get(&0x8f), Some(&NetworkSettingsPacket::kind()));
    assert_eq!(pool.get(&0x01), Some(&LoginPacket::kind()));
    assert_eq!(pool.get(&0x02), None);
    assert_eq!(DefaultProtocol::pool(), pool);
}

#[test]
fn packet_outside_the_default_pool_is_refused() {
    let pk = PlayStatusPacket { status: PlayStatus::PlayerSpawn };
    let mut w = ByteWriter::new();
    DefaultProtocol::write_packet(&mut w, &pk).unwrap();
    assert_eq!(w.as_slice(), &[0x02, 0, 0, 0, 3]);
    let mut r = ByteReader::new(w.into_bytes());
    assert_eq!(
        DefaultProtocol::read_packet(&DefaultProtocol::pool(), &mut r),
        Err(DecodeError::UnknownPacketId { id: 2 })
    );
    let mut pool = DefaultProtocol::pool();
    pool.insert(PlayStatusPacket::id(), PlayStatusPacket::kind());
    let mut r = ByteReader::new(vec![0x02, 0, 0, 0, 3]);
    assert_eq!(
        DefaultProtocol::read_packet(&pool, &mut r),
        Ok(PacketKind::PlayStatus(pk))
    );
}

#[test]
fn network_settings_through_the_default_protocol() {
    let pk = NetworkSettingsPacket {
        compression_threshold: 0,
        compression_algorithm: bstream::enums::CompressionAlgorithm::Zlib,
        client_throttle: false,
        client_throttle_threshold: 0,
        client_throttle_scalar: f32::to_bits(0.0),
    };
    let mut w = ByteWriter::new();
    DefaultProtocol::write_packet(&mut w, &pk).unwrap();
    assert_eq!(w.as_slice(), &[0x8f, 0x01, 0, 0, 0, 0, 0, 0, 0, 0, 0, 0]);
    let mut r = ByteReader::new(w.into_bytes());
    assert_eq!(
        DefaultProtocol::read_packet(&DefaultProtocol::pool(), &mut r),
        Ok(PacketKind::NetworkSettings(pk))
    );
}

#[test]
fn read_packet_hands_on_the_failures_below_it() {
    let pool = DefaultProtocol::pool();
    let mut r = ByteReader::new(vec![]);
    assert_eq!(
        DefaultProtocol::read_packet(&pool, &mut r),
        Err(DecodeError::UnexpectedEof)
    );
    let mut r = ByteReader::new(vec![0xff; 10]);
    assert_eq!(
        DefaultProtocol::read_packet(&pool, &mut r),
        Err(DecodeError::MalformedVarint)
    );
    let mut r = ByteReader::new(vec![0x8f, 0x01, 0, 0, 9, 0]);
    assert_eq!(
        DefaultProtocol::read_packet(&pool, &mut r),
        Err(DecodeError::UnknownDiscriminant { value: 9 })
    );
    let mut r = ByteReader::new(vec![0x01, 1, 0, 0]);
    assert_eq!(
        DefaultProtocol::read_packet(&pool, &mut r),
        Err(DecodeError::UnexpectedEof)
    );
}

#[test]
fn write_packet_into_a_short_sink_is_cut_off() {
    let pk = RequestNetworkSettingsPacket { client_protocol: 800 };
    let mut w = ByteWriter::with_limit(3);
    assert_eq!(DefaultProtocol::write_packet(&mut w, &pk), Err(EncodeError::SinkFull));
    assert_eq!(w.as_slice(), &[0xc1, 0x01, 0xa0]);
    let mut w = ByteWriter::with_limit(1);
    assert_eq!(DefaultProtocol::write_packet(&mut w, &pk), Err(EncodeError::SinkFull));
    assert_eq!(w.as_slice(), &[0xc1]);
}

#[test]
fn protocol_number_and_name() {
    assert_eq!(DefaultProtocol::id(), 671);
    assert_eq!(DefaultProtocol::version(), "v1.20.80");
    assert_eq!(ProtocolId::V1_20_80.to_i32(), 671);
    assert_eq!(ProtocolId::V1_20_70.to_i32(), 662);
    assert_eq!(ProtocolId::V1_20_60.to_i32(), 649);
    assert_eq!(ProtocolId::V1_20_50.to_i32(), 630);
    assert_eq!(ProtocolId::V1_20_40.to_i32(), 622);
    assert_eq!(ProtocolId::V1_20_30.to_i32(), 618);
    assert_eq!(ProtocolId::V1_20_10.to_i32(), 594);
    assert_eq!(ProtocolId::V1_20_0.to_i32(), 589);
}
