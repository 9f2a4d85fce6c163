use bstream::blob::Vu32LenByteSlice;
use bstream::enums::ActorEvent;
use bstream::enums::CompressionAlgorithm;
use bstream::enums::PlayStatus;
use bstream::error::DecodeError;
use bstream::error::EncodeError;
use bstream::packets::decode;
use bstream::packets::decode_kind;
use bstream::packets::ActorEventPacket;
use bstream::packets::ActorPickRequestPacket;
use bstream::packets::LoginPacket;
use bstream::packets::NetworkSettingsPacket;
use bstream::packets::Packet;
use bstream::packets::PacketKind;
use bstream::packets::PlayStatusPacket;
use bstream::packets::RequestNetworkSettingsPacket;
use bstream::record::BinaryStream;
use bstream::record::EnumBinaryStream;
use bstream::record::EnumSpec;
use bstream::stream::ByteReader;
use bstream::stream::ByteWriter;

fn bytes_of<T: BinaryStream>(pk: &T) -> Vec<u8> {
    let mut w = ByteWriter::new();
    pk.write(&mut w).unwrap();
    w.into_bytes()
}

#[test]
fn play_status_out_of_range_is_an_unknown_discriminant() {
    let mut r = ByteReader::new(vec![0, 0, 0x03, 0xe7]);
    assert_eq!(
        PlayStatus::read(&mut r),
        Err(DecodeError::UnknownDiscriminant { value: 999 })
    );
    assert_eq!(r.remaining(), 0);

    let mut pk = PlayStatusPacket { status: PlayStatus::PlayerSpawn };
    let mut r = ByteReader::new(vec![0, 0, 0x03, 0xe7, 5]);
    assert_eq!(
        pk.read(&mut r),
        Err(DecodeError::UnknownDiscriminant { value: 999 })
    );
    assert_eq!(pk, PlayStatusPacket { status: PlayStatus::PlayerSpawn });
    assert_eq!(r.remaining(), 1);
}

#[test]
fn unknown_discriminant_is_not_replaced_by_the_default() {
    let mut r = ByteReader::new(vec![2, 0]);
    assert_eq!(
        CompressionAlgorithm::read(&mut r),
        Err(DecodeError::UnknownDiscriminant { value: 2 })
    );
    let mut r = ByteReader::new(vec![0]);
    assert_eq!(
        ActorEvent::read(&mut r),
        Err(DecodeError::UnknownDiscriminant { value: 0 })
    );
    let mut r = ByteReader::new(vec![40]);
    assert_eq!(
        ActorEvent::read(&mut r),
        Err(DecodeError::UnknownDiscriminant { value: 40 })
    );
    let mut r = ByteReader::new(vec![0xff, 0xff, 0xff, 0xff]);
    assert_eq!(
        PlayStatus::read(&mut r),
        Err(DecodeError::UnknownDiscriminant { value: -1 })
    );
}

#[test]
fn enum_discriminants_go_over_the_wire() {
    let mut w = ByteWriter::new();
    CompressionAlgorithm::Zlib.write(&mut w).unwrap();
    CompressionAlgorithm::Snappy.write(&mut w).unwrap();
    CompressionAlgorithm::NoCompression.write(&mut w).unwrap();
    PlayStatus::LoginFailedVanillaEditor.write(&mut w).unwrap();
    ActorEvent::JUMP.write(&mut w).unwrap();
    ActorEvent::DrinkMilk.write(&mut w).unwrap();
    assert_eq!(
        w.as_slice(),
        &[0, 0, 1, 0, 255, 0, 0, 0, 0, 9, 1, 78]
    );
    let mut r = ByteReader::new(w.into_bytes());
    assert_eq!(CompressionAlgorithm::read(&mut r), Ok(CompressionAlgorithm::Zlib));
    assert_eq!(CompressionAlgorithm::read(&mut r), Ok(CompressionAlgorithm::Snappy));
    assert_eq!(
        CompressionAlgorithm::read(&mut r),
        Ok(CompressionAlgorithm::NoCompression)
    );
    assert_eq!(PlayStatus::read(&mut r), Ok(PlayStatus::LoginFailedVanillaEditor));
    assert_eq!(ActorEvent::read(&mut r), Ok(ActorEvent::JUMP));
    assert_eq!(ActorEvent::read(&mut r), Ok(ActorEvent::DrinkMilk));
    assert_eq!(r.remaining(), 0);
}

#[test]
fn every_discriminant_leads_back_to_its_variant() {
    for d in 0..200i128 {
        if let Some(v) = ActorEvent::from_discriminant(d) {
            assert_eq!(v.to_discriminant(), d);
        }
        if let Some(v) = PlayStatus::from_discriminant(d) {
            assert_eq!(v.to_discriminant(), d);
        }
        if let Some(v) = CompressionAlgorithm::from_discriminant(d) {
            assert_eq!(v.to_discriminant(), d);
        }
    }
    assert_eq!(ActorEvent::from_discriminant(57), Some(ActorEvent::EatingItem));
    assert_eq!(ActorEvent::from_discriminant(58), None);
    assert_eq!(ActorEvent::from_discriminant(79), None);
    assert_eq!(PlayStatus::from_discriminant(10), None);
    assert_eq!(PlayStatus::from_discriminant(-1), None);
    assert_eq!(
        CompressionAlgorithm::from_discriminant(255),
        Some(CompressionAlgorithm::NoCompression)
    );
    assert_eq!(ActorEvent::ArrowShake.to_discriminant(), 39);
    assert_eq!(ActorEvent::BabyAnimalFeed.to_discriminant(), 60);
}

#[test]
fn enum_defaults() {
    assert_eq!(CompressionAlgorithm::default(), CompressionAlgorithm::NoCompression);
    assert_eq!(PlayStatus::default(), PlayStatus::LoginSuccess);
    assert_eq!(ActorEvent::default(), ActorEvent::JUMP);
}

#[test]
fn request_network_settings_layout() {
    let pk = RequestNetworkSettingsPacket { client_protocol: 800 };
    assert_eq!(bytes_of(&pk), vec![0xa0, 0x06]);
    let pk = RequestNetworkSettingsPacket { client_protocol: -1 };
    assert_eq!(bytes_of(&pk), vec![0xff, 0xff, 0xff, 0xff, 0x0f]);
}

#[test]
fn network_settings_layout() {
    let pk = NetworkSettingsPacket {
        compression_threshold: 0x0102,
        compression_algorithm: CompressionAlgorithm::Snappy,
        client_throttle: true,
        client_throttle_threshold: 9,
        client_throttle_scalar: f32::to_bits(0.5),
    };
    assert_eq!(
        bytes_of(&pk),
        vec![0x02, 0x01, 0x01, 0x00, 0x01, 0x09, 0x00, 0x00, 0x00, 0x3f]
    );
}

#[test]
fn login_layout() {
    let pk = LoginPacket {
        client_protocol: 671,
        connection_request: Vu32LenByteSlice::from(vec![b'{', b'}']),
    };
    assert_eq!(bytes_of(&pk), vec![0x9f, 0x02, 0, 0, 2, b'{', b'}']);
}

#[test]
fn play_status_layout() {
    let pk = PlayStatusPacket { status: PlayStatus::PlayerSpawn };
    assert_eq!(bytes_of(&pk), vec![0, 0, 0, 3]);
}

#[test]
fn actor_event_layout() {
    let pk = ActorEventPacket {
        entity_runtime_id: ActorEvent::ConsumeTotem,
        event_type: 7,
        event_data: 300,
    };
    assert_eq!(bytes_of(&pk), vec![65, 7, 0xac, 0x02]);
}

#[test]
fn actor_pick_request_layout() {
    let pk = ActorPickRequestPacket {
        entity_unique_id: -2,
        hot_bar_slot: -1,
        with_data: true,
    };
    assert_eq!(
        bytes_of(&pk),
        vec![0xfe, 0xff, 0xff, 0xff, 0xff, 0xff, 0xff, 0xff, 0xff, 0x01]
    );
}

#[test]
fn packets_round_trip() {
    let a = RequestNetworkSettingsPacket { client_protocol: i32::MIN };
    let mut b = RequestNetworkSettingsPacket::default();
    assert_eq!(b.read(&mut ByteReader::new(bytes_of(&a))), Ok(()));
    assert_eq!(a, b);

    let a = NetworkSettingsPacket {
        compression_threshold: 512,
        compression_algorithm: CompressionAlgorithm::Zlib,
        client_throttle: false,
        client_throttle_threshold: 255,
        client_throttle_scalar: f32::to_bits(-12.75),
    };
    let mut b = NetworkSettingsPacket::default();
    assert_eq!(b.read(&mut ByteReader::new(bytes_of(&a))), Ok(()));
    assert_eq!(a, b);
    assert_eq!(f32::from_bits(b.client_throttle_scalar), -12.75);

    let a = LoginPacket {
        client_protocol: -5,
        connection_request: Vu32LenByteSlice::from((0..200u8).collect::<Vec<u8>>()),
    };
    let mut b = LoginPacket::default();
    assert_eq!(b.read(&mut ByteReader::new(bytes_of(&a))), Ok(()));
    assert_eq!(a, b);

    let a = PlayStatusPacket { status: PlayStatus::LoginFailedServerFull };
    let mut b = PlayStatusPacket::default();
    assert_eq!(b.read(&mut ByteReader::new(bytes_of(&a))), Ok(()));
    assert_eq!(a, b);

    let a = ActorEventPacket {
        entity_runtime_id: ActorEvent::VibrationDetected,
        event_type: 200,
        event_data: u32::MAX,
    };
    let mut b = ActorEventPacket::default();
    assert_eq!(b.read(&mut ByteReader::new(bytes_of(&a))), Ok(()));
    assert_eq!(a, b);

    let a = ActorPickRequestPacket {
        entity_unique_id: i64::MAX,
        hot_bar_slot: i8::MIN,
        with_data: false,
    };
    let mut b = ActorPickRequestPacket::default();
    assert_eq!(b.read(&mut ByteReader::new(bytes_of(&a))), Ok(()));
    assert_eq!(a, b);
}

#[test]
fn failed_read_leaves_the_record_as_it_was() {
    let before = NetworkSettingsPacket {
        compression_threshold: 7,
        compression_algorithm: CompressionAlgorithm::Snappy,
        client_throttle: true,
        client_throttle_threshold: 3,
        client_throttle_scalar: 1,
    };
    let mut pk = before;
    let mut r = ByteReader::new(vec![1, 0, 5, 0, 1, 1, 0, 0, 0, 0]);
    assert_eq!(
        pk.read(&mut r),
        Err(DecodeError::UnknownDiscriminant { value: 5 })
    );
    assert_eq!(pk, before);
    assert_eq!(r.remaining(), 6);

    let mut r = ByteReader::new(vec![1, 0, 1, 0, 1, 1, 0, 0]);
    assert_eq!(pk.read(&mut r), Err(DecodeError::UnexpectedEof));
    assert_eq!(pk, before);
    assert_eq!(r.remaining(), 0);

    let mut login = LoginPacket {
        client_protocol: 1,
        connection_request: Vu32LenByteSlice::from(vec![1]),
    };
    let mut r = ByteReader::new(vec![9, 0, 0, 0, 3, 1, 2]);
    assert_eq!(login.read(&mut r), Err(DecodeError::UnexpectedEof));
    assert_eq!(login.client_protocol, 1);
    assert_eq!(login.connection_request.0, vec![1]);
}

#[test]
fn packet_into_a_short_sink_is_cut_off() {
    let pk = ActorPickRequestPacket { entity_unique_id: 1, hot_bar_slot: 2, with_data: true };
    let mut w = ByteWriter::with_limit(9);
    assert_eq!(pk.write(&mut w), Err(EncodeError::SinkFull));
    assert_eq!(w.as_slice(), &[1, 0, 0, 0, 0, 0, 0, 0, 2]);
    let mut w = ByteWriter::with_limit(4);
    assert_eq!(pk.write(&mut w), Err(EncodeError::SinkFull));
    assert_eq!(w.as_slice(), &[1, 0, 0, 0]);
    let mut w = ByteWriter::with_limit(10);
    assert_eq!(pk.write(&mut w), Ok(()));
}

#[test]
fn packet_descriptors() {
    assert_eq!(RequestNetworkSettingsPacket::id(), 0xc1);
    assert_eq!(NetworkSettingsPacket::id(), 0x8f);
    assert_eq!(LoginPacket::id(), 0x01);
    assert_eq!(PlayStatusPacket::id(), 0x02);
    assert_eq!(ActorEventPacket::id(), 0x1b);
    assert_eq!(ActorPickRequestPacket::id(), 0x23);
    assert!(!RequestNetworkSettingsPacket::compressible());
    assert!(!NetworkSettingsPacket::compressible());
    assert!(LoginPacket::compressible());
    assert!(PlayStatusPacket::compressible());
    assert!(ActorEventPacket::compressible());
    assert!(ActorPickRequestPacket::compressible());
}

#[test]
fn packet_kinds_hold_default_payloads() {
    assert_eq!(
        RequestNetworkSettingsPacket::kind(),
        PacketKind::RequestNetworkSettings(RequestNetworkSettingsPacket { client_protocol: 0 })
    );
    assert_eq!(
        NetworkSettingsPacket::kind(),
        PacketKind::NetworkSettings(NetworkSettingsPacket {
            compression_threshold: 0,
            compression_algorithm: CompressionAlgorithm::NoCompression,
            client_throttle: false,
            client_throttle_threshold: 0,
            client_throttle_scalar: 0,
        })
    );
    assert_eq!(
        LoginPacket::kind(),
        PacketKind::Login(LoginPacket {
            client_protocol: 0,
            connection_request: Vu32LenByteSlice(vec![]),
        })
    );
    assert_eq!(
        PlayStatusPacket::kind(),
        PacketKind::PlayStatus(PlayStatusPacket { status: PlayStatus::LoginSuccess })
    );
    assert_eq!(
        ActorEventPacket::kind(),
        PacketKind::ActorEvent(ActorEventPacket {
            entity_runtime_id: ActorEvent::JUMP,
            event_type: 0,
            event_data: 0,
        })
    );
    assert_eq!(
        ActorPickRequestPacket::kind(),
        PacketKind::ActorPickRequest(ActorPickRequestPacket {
            entity_unique_id: 0,
            hot_bar_slot: 0,
            with_data: false,
        })
    );
}

#[test]
fn decode_reads_into_a_copy_of_the_pattern() {
    let pattern = ActorEventPacket {
        entity_runtime_id: ActorEvent::FALL,
        event_type: 1,
        event_data: 2,
    };
    let mut r = ByteReader::new(vec![4, 9, 5, 77]);
    let got = decode(&pattern, &mut r).unwrap();
    assert_eq!(
        got,
        ActorEventPacket { entity_runtime_id: ActorEvent::ArmSwing, event_type: 9, event_data: 5 }
    );
    assert_eq!(pattern.entity_runtime_id, ActorEvent::FALL);
    assert_eq!(r.remaining(), 1);
}

#[test]
fn decode_kind_gives_the_variant_of_the_pattern() {
    let mut r = ByteReader::new(vec![0, 0, 0, 8]);
    assert_eq!(
        decode_kind(&mut r, &PlayStatusPacket::kind()),
        Ok(PacketKind::PlayStatus(PlayStatusPacket {
            status: PlayStatus::LoginFailedEditorVanilla
        }))
    );
    let mut r = ByteReader::new(vec![0xa0, 0x06]);
    assert_eq!(
        decode_kind(&mut r, &RequestNetworkSettingsPacket::kind()),
        Ok(PacketKind::RequestNetworkSettings(RequestNetworkSettingsPacket {
            client_protocol: 800
        }))
    );
    let mut r = ByteReader::new(vec![1, 0, 0, 0, 1, 42]);
    assert_eq!(
        decode_kind(&mut r, &LoginPacket::kind()),
        Ok(PacketKind::Login(LoginPacket {
            client_protocol: 1,
            connection_request: Vu32LenByteSlice(vec![42]),
        }))
    );
    let mut r = ByteReader::new(vec![1, 0, 0, 0, 0, 0, 0, 0, 3, 1]);
    assert_eq!(
        decode_kind(&mut r, &ActorPickRequestPacket::kind()),
        Ok(PacketKind::ActorPickRequest(ActorPickRequestPacket {
            entity_unique_id: 1,
            hot_bar_slot: 3,
            with_data: true,
        }))
    );
    let mut r = ByteReader::new(vec![2, 0, 0, 0, 0, 7, 0, 0, 128, 63]);
    assert_eq!(
        decode_kind(&mut r, &NetworkSettingsPacket::kind()),
        Ok(PacketKind::NetworkSettings(NetworkSettingsPacket {
            compression_threshold: 2,
            compression_algorithm: CompressionAlgorithm::Zlib,
            client_throttle: false,
            client_throttle_threshold: 7,
            client_throttle_scalar: f32::to_bits(1.0),
        }))
    );
    let mut r = ByteReader::new(vec![0, 0, 0]);
    assert_eq!(
        decode_kind(&mut r, &ActorEventPacket::kind()),
        Err(DecodeError::UnknownDiscriminant { value: 0 })
    );
}
