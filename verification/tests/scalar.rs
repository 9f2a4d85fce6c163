use bstream::endian::Endianness;
use bstream::error::DecodeError;
use bstream::error::EncodeError;
use bstream::scalar::Annotation;
use bstream::scalar::EncodingKind;
use bstream::scalar::FieldEncoding;
use bstream::scalar::IntType;
use bstream::scalar::ReaderExt;
use bstream::scalar::WriterExt;
use bstream::stream::ByteReader;
use bstream::stream::ByteWriter;

fn reader(bytes: &[u8]) -> ByteReader {
    ByteReader::new(bytes.to_vec())
}

#[test]
fn boolean_byte_two_decodes_to_false() {
    let mut r = reader(&[2]);
    assert_eq!(r.read_bool(), Ok(false));
    assert_eq!(r.remaining(), 0);
}

#[test]
fn boolean_is_true_for_the_byte_one_only() {
    assert_eq!(reader(&[0]).read_bool(), Ok(false));
    assert_eq!(reader(&[1]).read_bool(), Ok(true));
    assert_eq!(reader(&[255]).read_bool(), Ok(false));
    assert_eq!(reader(&[]).read_bool(), Err(DecodeError::UnexpectedEof));
}

#[test]
fn boolean_is_written_as_zero_or_one() {
    let mut w = ByteWriter::new();
    w.write_bool(true).unwrap();
    w.write_bool(false).unwrap();
    assert_eq!(w.as_slice(), &[1, 0]);
}

#[test]
fn fixed_width_unsigned_bytes_follow_the_byte_order() {
    let mut w = ByteWriter::new();
    w.write_u16(0x1234, Endianness::Little).unwrap();
    w.write_u16(0x1234, Endianness::Big).unwrap();
    w.write_u32(0x1234_5678, Endianness::Little).unwrap();
    w.write_u32(0x1234_5678, Endianness::Big).unwrap();
    w.write_u64(0x0102_0304_0506_0708, Endianness::Little).unwrap();
    w.write_u64(0x0102_0304_0506_0708, Endianness::Big).unwrap();
    assert_eq!(
        w.as_slice(),
        &[
            0x34, 0x12, 0x12, 0x34, 0x78, 0x56, 0x34, 0x12, 0x12, 0x34, 0x56, 0x78, 8, 7, 6, 5,
            4, 3, 2, 1, 1, 2, 3, 4, 5, 6, 7, 8
        ]
    );
}

#[test]
fn fixed_width_unsigned_values_follow_the_byte_order() {
    assert_eq!(reader(&[0x34, 0x12]).read_u16(Endianness::Little), Ok(0x1234));
    assert_eq!(reader(&[0x34, 0x12]).read_u16(Endianness::Big), Ok(0x3412));
    assert_eq!(
        reader(&[0x78, 0x56, 0x34, 0x12]).read_u32(Endianness::Little),
        Ok(0x1234_5678)
    );
    assert_eq!(
        reader(&[0x78, 0x56, 0x34, 0x12]).read_u32(Endianness::Big),
        Ok(0x7856_3412)
    );
    assert_eq!(
        reader(&[1, 2, 3, 4, 5, 6, 7, 8]).read_u64(Endianness::Little),
        Ok(0x0807_0605_0403_0201)
    );
    assert_eq!(
        reader(&[1, 2, 3, 4, 5, 6, 7, 8]).read_u64(Endianness::Big),
        Ok(0x0102_0304_0506_0708)
    );
}

#[test]
fn fixed_width_signed_values_are_in_twos_complement() {
    let mut w = ByteWriter::new();
    w.write_i16(-2, Endianness::Little).unwrap();
    w.write_i32(-34253, Endianness::Big).unwrap();
    w.write_i64(-1, Endianness::Little).unwrap();
    w.write_i8(-128).unwrap();
    assert_eq!(
        w.as_slice(),
        &[
            0xfe, 0xff, 0xff, 0xff, 0x7a, 0x33, 0xff, 0xff, 0xff, 0xff, 0xff, 0xff, 0xff, 0xff,
            0x80
        ]
    );
    let mut r = ByteReader::new(w.into_bytes());
    assert_eq!(r.read_i16(Endianness::Little), Ok(-2));
    assert_eq!(r.read_i32(Endianness::Big), Ok(-34253));
    assert_eq!(r.read_i64(Endianness::Little), Ok(-1));
    assert_eq!(r.read_i8(), Ok(-128));
    assert_eq!(r.remaining(), 0);
}

#[test]
fn fixed_width_values_round_trip_in_both_orders() {
    for order in [Endianness::Little, Endianness::Big] {
        for v in [0u16, 1, 255, 256, u16::MAX] {
            let mut w = ByteWriter::new();
            w.write_u16(v, order).unwrap();
            assert_eq!(ByteReader::new(w.into_bytes()).read_u16(order), Ok(v));
        }
        for v in [0i32, 1, -1, i32::MIN, i32::MAX, 800] {
            let mut w = ByteWriter::new();
            w.write_i32(v, order).unwrap();
            assert_eq!(ByteReader::new(w.into_bytes()).read_i32(order), Ok(v));
        }
        for v in [0u64, 1, u64::MAX, 0x8000_0000_0000_0000] {
            let mut w = ByteWriter::new();
            w.write_u64(v, order).unwrap();
            assert_eq!(ByteReader::new(w.into_bytes()).read_u64(order), Ok(v));
        }
        for v in [0i64, -1, i64::MIN, i64::MAX] {
            let mut w = ByteWriter::new();
            w.write_i64(v, order).unwrap();
            assert_eq!(ByteReader::new(w.into_bytes()).read_i64(order), Ok(v));
        }
        for v in [0i16, -1, i16::MIN, i16::MAX] {
            let mut w = ByteWriter::new();
            w.write_i16(v, order).unwrap();
            assert_eq!(ByteReader::new(w.into_bytes()).read_i16(order), Ok(v));
        }
        for v in [0u32, 1, u32::MAX, 0x8000_0000] {
            let mut w = ByteWriter::new();
            w.write_u32(v, order).unwrap();
            assert_eq!(ByteReader::new(w.into_bytes()).read_u32(order), Ok(v));
        }
    }
}

#[test]
fn short_fixed_width_read_takes_what_is_there() {
    let mut r = reader(&[1, 2, 3]);
    assert_eq!(r.read_u32(Endianness::Little), Err(DecodeError::UnexpectedEof));
    assert_eq!(r.remaining(), 0);
    let mut r = reader(&[1, 2, 3]);
    assert_eq!(r.read_u16(Endianness::Little), Ok(0x0201));
    assert_eq!(r.remaining(), 1);
}

#[test]
fn read_exact_gives_the_front_of_the_source() {
    let mut r = reader(&[9, 8, 7, 6]);
    assert_eq!(r.read_exact(3), Ok(vec![9, 8, 7]));
    assert_eq!(r.read_exact(0), Ok(vec![]));
    assert_eq!(r.read_exact(2), Err(DecodeError::UnexpectedEof));
    assert_eq!(r.remaining(), 0);
}

#[test]
fn write_all_stops_where_the_sink_is_full() {
    let mut w = ByteWriter::with_limit(3);
    assert_eq!(w.write_all(&[1, 2]), Ok(()));
    assert_eq!(w.write_all(&[3, 4, 5]), Err(EncodeError::SinkFull));
    assert_eq!(w.as_slice(), &[1, 2, 3]);
    assert_eq!(w.write_u8(6), Err(EncodeError::SinkFull));
    assert_eq!(w.write_u32(7, Endianness::Big), Err(EncodeError::SinkFull));
    assert_eq!(w.as_slice(), &[1, 2, 3]);
}

#[test]
fn fixed_width_write_into_a_short_sink_is_cut_off() {
    let mut w = ByteWriter::with_limit(2);
    assert_eq!(
        w.write_u32(0x1122_3344, Endianness::Big),
        Err(EncodeError::SinkFull)
    );
    assert_eq!(w.as_slice(), &[0x11, 0x22]);
}

#[test]
fn integers_by_type_and_encoding() {
    let le = FieldEncoding::fixed(Endianness::Little);
    let be = FieldEncoding::fixed(Endianness::Big);
    let var = FieldEncoding::variable();
    let cases: Vec<(IntType, FieldEncoding, i128, Vec<u8>)> = vec![
        (IntType::U8, le, 200, vec![200]),
        (IntType::U8, be, 200, vec![200]),
        (IntType::I8, le, -1, vec![0xff]),
        (IntType::U16, le, 0x1234, vec![0x34, 0x12]),
        (IntType::U16, be, 0x1234, vec![0x12, 0x34]),
        (IntType::I16, be, -2, vec![0xff, 0xfe]),
        (IntType::U32, le, 0x1234_5678, vec![0x78, 0x56, 0x34, 0x12]),
        (IntType::I32, be, 999, vec![0, 0, 0x03, 0xe7]),
        (IntType::I32, le, -1, vec![0xff, 0xff, 0xff, 0xff]),
        (IntType::U64, be, 1, vec![0, 0, 0, 0, 0, 0, 0, 1]),
        (IntType::I64, le, -2, vec![0xfe, 0xff, 0xff, 0xff, 0xff, 0xff, 0xff, 0xff]),
        (IntType::U8, var, 200, vec![0xc8, 0x01]),
        (IntType::I8, var, -1, vec![0xff, 0x01]),
        (IntType::U16, var, 300, vec![0xac, 0x02]),
        (IntType::I16, var, -1, vec![0xff, 0xff, 0x03]),
        (IntType::U32, var, 300, vec![0xac, 0x02]),
        (IntType::I32, var, -1, vec![0xff, 0xff, 0xff, 0xff, 0x0f]),
        (IntType::U64, var, 1, vec![1]),
        (
            IntType::I64,
            var,
            -1,
            vec![0xff, 0xff, 0xff, 0xff, 0xff, 0xff, 0xff, 0xff, 0xff, 0x01],
        ),
    ];
    for (ty, enc, v, bytes) in cases {
        let mut w = ByteWriter::new();
        assert_eq!(w.write_int(ty, enc, v), Ok(()));
        assert_eq!(w.as_slice(), bytes.as_slice());
        let mut r = ByteReader::new(bytes);
        assert_eq!(r.read_int(ty, enc), Ok(v));
        assert_eq!(r.remaining(), 0);
    }
}

#[test]
fn integer_outside_its_type_is_wrapped() {
    let mut w = ByteWriter::new();
    w.write_int(IntType::U8, FieldEncoding::default(), 0x1ff).unwrap();
    w.write_int(IntType::U16, FieldEncoding::default(), -1).unwrap();
    assert_eq!(w.as_slice(), &[0xff, 0xff, 0xff]);
}

#[test]
fn default_encoding_is_fixed_width_little_endian() {
    let e = FieldEncoding::default();
    assert_eq!(e.kind, EncodingKind::FixedWidth);
    assert_eq!(e.endianness, Endianness::Little);
    assert_eq!(e, FieldEncoding::fixed(Endianness::Little));
    assert_eq!(FieldEncoding::variable().kind, EncodingKind::Varint);
}

#[test]
fn annotations_set_the_encoding() {
    assert_eq!(FieldEncoding::from_annotations(&[]), FieldEncoding::default());
    let e = FieldEncoding::from_annotations(&[Annotation::BigEndian]);
    assert_eq!(e, FieldEncoding::fixed(Endianness::Big));
    let e = FieldEncoding::from_annotations(&[Annotation::Varint]);
    assert_eq!(e.kind, EncodingKind::Varint);
    assert_eq!(e.endianness, Endianness::Little);
    let e = FieldEncoding::from_annotations(&[
        Annotation::BigEndian,
        Annotation::LittleEndian,
        Annotation::Varint,
    ]);
    assert_eq!(e.kind, EncodingKind::Varint);
    assert_eq!(e.endianness, Endianness::Big);
    let e = FieldEncoding::from_annotations(&[Annotation::LittleEndian]);
    assert_eq!(e, FieldEncoding::default());
}

#[test]
fn reader_counts_what_is_left() {
    let mut r = reader(&[1, 2, 3]);
    assert_eq!(r.remaining(), 3);
    assert_eq!(r.read_u8(), Ok(1));
    assert_eq!(r.remaining(), 2);
    assert_eq!(r.read_u8(), Ok(2));
    assert_eq!(r.read_u8(), Ok(3));
    assert_eq!(r.read_u8(), Err(DecodeError::UnexpectedEof));
    assert_eq!(r.remaining(), 0);
}

#[test]
fn writer_gives_back_what_was_written() {
    let mut w = ByteWriter::new();
    assert_eq!(w.as_slice(), &[] as &[u8]);
    w.write_u8(5).unwrap();
    w.write_i8(-1).unwrap();
    assert_eq!(w.into_bytes(), vec![5, 0xff]);
}
