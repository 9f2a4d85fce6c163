use bstream::error::DecodeError;
use bstream::error::EncodeError;
use bstream::scalar::ByteSink;
use bstream::scalar::ReaderExt;
use bstream::scalar::WriterExt;
use bstream::stream::ByteReader;
use bstream::stream::ByteWriter;
use bstream::varint::read_variable;
use bstream::varint::write_variable;

fn encode_u64(v: u64) -> Vec<u8> {
    let mut w = ByteWriter::new();
    write_variable(&mut w, v).unwrap();
    w.into_bytes()
}

fn decode_u64(bytes: &[u8]) -> Result<u64, DecodeError> {
    let mut r = ByteReader::new(bytes.to_vec());
    read_variable(&mut r)
}

#[test]
fn varint_boundaries_round_trip_with_their_lengths() {
    let cases: [(u64, usize); 7] = [
        (0, 1),
        (127, 1),
        (128, 2),
        (16383, 2),
        (16384, 3),
        (u32::MAX as u64, 5),
        (u64::MAX, 10),
    ];
    for (v, len) in cases {
        let bytes = encode_u64(v);
        assert_eq!(bytes.len(), len);
        assert_eq!(decode_u64(&bytes), Ok(v));
    }
}

#[test]
fn varint_bytes_are_seven_bit_groups_low_group_first() {
    assert_eq!(encode_u64(0), vec![0x00]);
    assert_eq!(encode_u64(1), vec![0x01]);
    assert_eq!(encode_u64(127), vec![0x7f]);
    assert_eq!(encode_u64(128), vec![0x80, 0x01]);
    assert_eq!(encode_u64(300), vec![0xac, 0x02]);
    assert_eq!(encode_u64(16383), vec![0xff, 0x7f]);
    assert_eq!(encode_u64(16384), vec![0x80, 0x80, 0x01]);
    assert_eq!(encode_u64(u32::MAX as u64), vec![0xff, 0xff, 0xff, 0xff, 0x0f]);
    assert_eq!(
        encode_u64(u64::MAX),
        vec![0xff, 0xff, 0xff, 0xff, 0xff, 0xff, 0xff, 0xff, 0xff, 0x01]
    );
}

#[test]
fn signed_varint_is_the_unsigned_varint_of_the_bit_pattern() {
    let mut signed = ByteWriter::new();
    signed.write_vi32(-1).unwrap();
    let mut unsigned = ByteWriter::new();
    unsigned.write_vu32(0xffff_ffff).unwrap();
    assert_eq!(signed.as_slice(), unsigned.as_slice());
    assert_eq!(signed.as_slice(), &[0xff, 0xff, 0xff, 0xff, 0x0f]);

    let mut r = ByteReader::new(vec![0xff, 0xff, 0xff, 0xff, 0x0f]);
    assert_eq!(r.read_vi32(), Ok(-1));
    assert_eq!(r.remaining(), 0);
}

#[test]
fn signed_varints_round_trip() {
    for v in [0i32, 1, -1, 800, i32::MAX, i32::MIN, -123456] {
        let mut w = ByteWriter::new();
        w.write_vi32(v).unwrap();
        let mut r = ByteReader::new(w.into_bytes());
        assert_eq!(r.read_vi32(), Ok(v));
    }
    for v in [0i64, 1, -1, i64::MAX, i64::MIN, -9_876_543_210] {
        let mut w = ByteWriter::new();
        w.write_vi64(v).unwrap();
        let mut r = ByteReader::new(w.into_bytes());
        assert_eq!(r.read_vi64(), Ok(v));
    }
    let mut w = ByteWriter::new();
    w.write_vi64(-1).unwrap();
    assert_eq!(w.as_slice().len(), 10);
}

#[test]
fn varint_without_a_final_byte_is_malformed() {
    let mut r = ByteReader::new(vec![0x80; 12]);
    assert_eq!(read_variable(&mut r), Err(DecodeError::MalformedVarint));
    assert_eq!(r.remaining(), 2);
}

#[test]
fn varint_cut_short_is_an_unexpected_end() {
    assert_eq!(decode_u64(&[]), Err(DecodeError::UnexpectedEof));
    assert_eq!(decode_u64(&[0x80, 0x80]), Err(DecodeError::UnexpectedEof));
    let mut r = ByteReader::new(vec![0xff; 9]);
    assert_eq!(read_variable(&mut r), Err(DecodeError::UnexpectedEof));
    assert_eq!(r.remaining(), 0);
}

#[test]
fn varint_stops_at_the_first_final_byte() {
    let mut r = ByteReader::new(vec![0xac, 0x02, 0x05]);
    assert_eq!(read_variable(&mut r), Ok(300));
    assert_eq!(r.remaining(), 1);
}

#[test]
fn varint_with_padding_decodes_and_bits_beyond_64_are_dropped() {
    assert_eq!(decode_u64(&[0x80, 0x00]), Ok(0));
    assert_eq!(
        decode_u64(&[0xff, 0xff, 0xff, 0xff, 0xff, 0xff, 0xff, 0xff, 0xff, 0x7f]),
        Ok(u64::MAX)
    );
    assert_eq!(
        decode_u64(&[0x80, 0x80, 0x80, 0x80, 0x80, 0x80, 0x80, 0x80, 0x80, 0x02]),
        Ok(0)
    );
}

#[test]
fn narrow_varint_keeps_the_low_bits() {
    let mut r = ByteReader::new(encode_u64(0x1_0000_0005));
    assert_eq!(r.read_vu32(), Ok(5));
    let mut r = ByteReader::new(encode_u64(0xffff_ffff));
    assert_eq!(r.read_vi32(), Ok(-1));
}

#[test]
fn varint_into_a_full_sink_is_cut_off() {
    let mut w = ByteWriter::with_limit(1);
    assert_eq!(write_variable(&mut w, 300), Err(EncodeError::SinkFull));
    assert_eq!(w.as_slice(), &[0xac]);
    let mut w = ByteWriter::with_limit(0);
    assert_eq!(w.write_byte(7), Err(EncodeError::SinkFull));
    assert_eq!(w.as_slice(), &[] as &[u8]);
    let mut w = ByteWriter::with_limit(2);
    assert_eq!(write_variable(&mut w, 300), Ok(()));
    assert_eq!(w.as_slice(), &[0xac, 0x02]);
}
