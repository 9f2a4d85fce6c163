use bstream::blob::Vu32LenByteSlice;
use bstream::error::DecodeError;
use bstream::error::EncodeError;
use bstream::stream::ByteReader;
use bstream::stream::ByteWriter;

#[test]
fn byte_string_is_written_behind_its_length() {
    let b = Vu32LenByteSlice::from(vec![10, 20, 30]);
    let mut w = ByteWriter::new();
    b.write(&mut w).unwrap();
    assert_eq!(w.as_slice(), &[3, 10, 20, 30]);
}

#[test]
fn long_byte_string_has_a_length_of_two_bytes() {
    let data: Vec<u8> = (0..300).map(|i| (i % 251) as u8).collect();
    let b = Vu32LenByteSlice::from(data.clone());
    let mut w = ByteWriter::new();
    b.write(&mut w).unwrap();
    let bytes = w.into_bytes();
    assert_eq!(&bytes[..2], &[0xac, 0x02]);
    assert_eq!(&bytes[2..], data.as_slice());
    let mut r = ByteReader::new(bytes);
    assert_eq!(Vu32LenByteSlice::read(&mut r), Ok(Vu32LenByteSlice(data)));
    assert_eq!(r.remaining(), 0);
}

#[test]
fn empty_byte_string_is_one_zero_byte() {
    let b = Vu32LenByteSlice::default();
    assert_eq!(b.0, Vec::<u8>::new());
    let mut w = ByteWriter::new();
    b.write(&mut w).unwrap();
    assert_eq!(w.as_slice(), &[0]);
    let mut r = ByteReader::new(vec![0, 7]);
    assert_eq!(Vu32LenByteSlice::read(&mut r), Ok(Vu32LenByteSlice(vec![])));
    assert_eq!(r.remaining(), 1);
}

#[test]
fn byte_string_cut_short_is_an_unexpected_end() {
    let mut r = ByteReader::new(vec![5, 1, 2]);
    assert_eq!(Vu32LenByteSlice::read(&mut r), Err(DecodeError::UnexpectedEof));
    assert_eq!(r.remaining(), 0);
    let mut r = ByteReader::new(vec![]);
    assert_eq!(Vu32LenByteSlice::read(&mut r), Err(DecodeError::UnexpectedEof));
    let mut r = ByteReader::new(vec![0x80; 11]);
    assert_eq!(Vu32LenByteSlice::read(&mut r), Err(DecodeError::MalformedVarint));
    assert_eq!(r.remaining(), 1);
}

#[test]
fn byte_string_into_a_short_sink_is_cut_off() {
    let b = Vu32LenByteSlice::from(vec![1, 2, 3, 4]);
    let mut w = ByteWriter::with_limit(3);
    assert_eq!(b.write(&mut w), Err(EncodeError::SinkFull));
    assert_eq!(w.as_slice(), &[4, 1, 2]);
    let mut w = ByteWriter::with_limit(0);
    assert_eq!(b.write(&mut w), Err(EncodeError::SinkFull));
    assert_eq!(w.as_slice(), &[] as &[u8]);
}

#[test]
fn byte_string_clone_holds_the_same_bytes() {
    let b = Vu32LenByteSlice::from(vec![1, 2, 3]);
    let c = b.clone();
    assert_eq!(b, c);
    assert_eq!(c.0, vec![1, 2, 3]);
}
