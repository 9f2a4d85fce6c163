//! Byte sources and sinks held in memory.

use vstd::prelude::*;
use crate::error::DecodeError;
use crate::error::EncodeError;
use crate::scalar::ByteSink;
use crate::scalar::ByteSource;

verus! {

/// A byte source over a buffer held in memory, read front to back.
pub struct ByteReader {
    data: Vec<u8>,
    pos: usize,
}

impl ByteReader {
    #[verifier::type_invariant]
    spec fn inv(&self) -> bool {
        self.pos <= self.data@.len()
    }

    /// A reader that hands out `data` from its first byte on.
    pub fn new(data: Vec<u8>) -> (r: Self)
        ensures
            r.pending() == data@,
    {
        let r = ByteReader { data, pos: 0 };
        assert(r.data@.skip(0) =~= r.data@);
        r
    }

    /// How many bytes are left to read.
    pub fn remaining(&self) -> (n: usize)
        ensures
            n == self.pending().len(),
    {
        proof {
            use_type_invariant(self);
        }
        self.data.len() - self.pos
    }
}

impl ByteSource for ByteReader {
    closed spec fn pending(&self) -> Seq<u8> {
        self.data@.skip(self.pos as int)
    }

    fn read_byte(&mut self) -> (r: Result<u8, DecodeError>) {
        proof {
            use_type_invariant(&*self);
        }
        if self.pos < self.data.len() {
            let b = self.data[self.pos];
            self.pos = self.pos + 1;
            assert(self.data@.skip(self.pos as int) =~= old(self).data@.skip(
                old(self).pos as int,
            ).skip(1));
            Ok(b)
        } else {
            assert(self.data@.skip(self.pos as int).skip(0) =~= self.data@.skip(self.pos as int));
            Err(DecodeError::UnexpectedEof)
        }
    }
}

/// A byte sink held in memory that takes bytes up to a fixed total.
pub struct ByteWriter {
    data: Vec<u8>,
    limit: usize,
}

impl ByteWriter {
    /// An empty sink that takes as many bytes as the machine can address.
    pub fn new() -> (w: Self)
        ensures
            w.written() == Seq::<u8>::empty(),
            w.room() == usize::MAX,
    {
        ByteWriter { data: Vec::new(), limit: usize::MAX }
    }

    /// An empty sink that takes `limit` bytes and no more.
    pub fn with_limit(limit: usize) -> (w: Self)
        ensures
            w.written() == Seq::<u8>::empty(),
            w.room() == limit,
    {
        ByteWriter { data: Vec::new(), limit }
    }

    /// The bytes written so far.
    pub fn as_slice(&self) -> (s: &[u8])
        ensures
            s@ == self.written(),
    {
        self.data.as_slice()
    }

    /// Gives up the sink for the bytes written to it.
    pub fn into_bytes(self) -> (v: Vec<u8>)
        ensures
            v@ == self.written(),
    {
        self.data
    }
}

impl ByteSink for ByteWriter {
    closed spec fn written(&self) -> Seq<u8> {
        self.data@
    }

    closed spec fn room(&self) -> nat {
        if self.data@.len() <= self.limit {
            (self.limit - self.data@.len()) as nat
        } else {
            0
        }
    }

    fn write_byte(&mut self, v: u8) -> (r: Result<(), EncodeError>) {
        if self.data.len() < self.limit {
            self.data.push(v);
            assert(self.data@ =~= old(self).data@ + seq![v]);
            Ok(())
        } else {
            assert(seq![v].take(0) =~= Seq::<u8>::empty());
            assert(self.data@ + Seq::<u8>::empty() =~= self.data@);
            Err(EncodeError::SinkFull)
        }
    }
}

} // verus!
