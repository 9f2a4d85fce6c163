//! Byte strings that go over the wire behind their length.

use vstd::prelude::*;
use crate::error::DecodeError;
use crate::error::EncodeError;
use crate::record::failed;
use crate::scalar::ByteSink;
use crate::scalar::ByteSource;
use crate::scalar::IntType;
use crate::scalar::Parsed;
use crate::scalar::ReaderExt;
use crate::scalar::WriterExt;
use crate::scalar::int_wire;
use crate::scalar::lemma_write_step;
use crate::scalar::lemma_int_parse_consumed;
use crate::scalar::lemma_int_round_trip;
use crate::scalar::parse_bytes;
use crate::scalar::parse_u32;
use crate::scalar::reads;
use crate::scalar::sink_took;
use crate::scalar::varint;

verus! {

/// A byte string that is written as its length, a variable-length `u32`,
/// and then its bytes.
#[derive(Debug, PartialEq, Eq)]
pub struct Vu32LenByteSlice(pub Vec<u8>);

impl View for Vu32LenByteSlice {
    type V = Seq<u8>;

    open spec fn view(&self) -> Seq<u8> {
        self.0@
    }
}

/// The bytes of the byte string `data`: its length, of which the low 32 bits
/// are kept, and `data` itself.
pub open spec fn blob_wire(data: Seq<u8>) -> Seq<u8> {
    int_wire(IntType::U32, varint(), data.len() as int) + data
}

/// What decoding a byte string makes of `input`.
pub open spec fn blob_parse(input: Seq<u8>) -> Parsed<Seq<u8>> {
    let n = parse_u32(varint(), input);
    match n.outcome {
        Ok(len) => {
            let b = parse_bytes(len as nat, input.skip(n.consumed as int));
            Parsed { outcome: b.outcome, consumed: n.consumed + b.consumed }
        },
        Err(e) => failed(0, n),
    }
}

/// Decoding the bytes of a byte string whose length fits in 32 bits gives
/// the byte string back and takes those bytes only, whatever follows them.
pub proof fn lemma_blob_round_trip(data: Seq<u8>, rest: Seq<u8>)
    requires
        data.len() <= u32::MAX,
    ensures
        blob_parse(blob_wire(data) + rest) == (Parsed {
            outcome: Ok::<Seq<u8>, DecodeError>(data),
            consumed: blob_wire(data).len(),
        }),
{
    let head = int_wire(IntType::U32, varint(), data.len() as int);
    lemma_int_round_trip(IntType::U32, varint(), data.len() as int, data + rest);
    assert(blob_wire(data) + rest =~= head + (data + rest));
    assert((head + (data + rest)).skip(head.len() as int) =~= data + rest);
    assert((data + rest).take(data.len() as int) =~= data);
}

/// Decoding a byte string takes no more bytes than the input has.
pub proof fn lemma_blob_parse_consumed(input: Seq<u8>)
    ensures
        blob_parse(input).consumed <= input.len(),
{
    lemma_int_parse_consumed(IntType::U32, varint(), input);
}

impl Vu32LenByteSlice {
    /// The byte string that holds `v`.
    pub fn from(v: Vec<u8>) -> (r: Self)
        ensures
            r.0 == v,
    {
        Vu32LenByteSlice(v)
    }

    /// Reads the length and then as many bytes.
    pub fn read<R: ByteSource>(r: &mut R) -> (res: Result<Self, DecodeError>)
        ensures
            reads(
                old(r).pending(),
                final(r).pending(),
                match res {
                    Ok(b) => Ok(b@),
                    Err(e) => Err(e),
                },
                blob_parse(old(r).pending()),
            ),
    {
        let ghost input = r.pending();
        let len = match r.read_vu32() {
            Ok(n) => n,
            Err(e) => {
                assert(input.skip(0) =~= input);
                return Err(e);
            },
        };
        let ghost n = parse_u32(varint(), input);
        let ghost after = input.skip(n.consumed as int);
        proof {
            lemma_int_parse_consumed(IntType::U32, varint(), input);
        }
        match r.read_exact(len as usize) {
            Ok(bytes) => {
                assert(after.skip(len as int) =~= input.skip(n.consumed + len));
                Ok(Vu32LenByteSlice(bytes))
            },
            Err(e) => {
                assert(after.skip(after.len() as int) =~= input.skip(
                    n.consumed + after.len() as int,
                ));
                Err(e)
            },
        }
    }

    /// Writes the length and then the bytes.
    pub fn write<W: ByteSink>(&self, w: &mut W) -> (res: Result<(), EncodeError>)
        ensures
            sink_took(
                old(w).written(),
                old(w).room(),
                final(w).written(),
                final(w).room(),
                res,
                blob_wire(self@),
            ),
    {
        let ghost head = int_wire(IntType::U32, varint(), self@.len() as int);
        let ghost empty = Seq::<u8>::empty();
        assert(old(w).written() + empty =~= old(w).written());
        assert(empty + head =~= head);
        let count: u32 = (self.0.len() as u64 % 0x1_0000_0000) as u32;
        let first = w.write_vu32(count);
        proof {
            lemma_write_step(
                old(w).written(),
                old(w).room(),
                empty,
                head,
                self@,
                w.written(),
                w.room(),
                first,
            );
        }
        if first.is_err() {
            return first;
        }
        let second = w.write_all(self.0.as_slice());
        proof {
            lemma_write_step(
                old(w).written(),
                old(w).room(),
                head,
                self@,
                empty,
                w.written(),
                w.room(),
                second,
            );
            assert(head + self@ + empty =~= head + self@);
        }
        second
    }
}

impl Clone for Vu32LenByteSlice {
    fn clone(&self) -> (r: Self)
        ensures
            r@ == self@,
    {
        Vu32LenByteSlice(self.0.clone())
    }
}

impl Default for Vu32LenByteSlice {
    /// The empty byte string.
    fn default() -> (r: Self)
        ensures
            r@ == Seq::<u8>::empty(),
    {
        Vu32LenByteSlice(Vec::new())
    }
}

} // verus!
