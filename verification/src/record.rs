//! Records: values that are written field after field and read back the same
//! way, and enumerated types that go over the wire as one discriminant.

use vstd::prelude::*;
use crate::error::DecodeError;
use crate::error::EncodeError;
use crate::scalar::ByteSink;
use crate::scalar::ByteSource;
use crate::scalar::FieldEncoding;
use crate::scalar::IntType;
use crate::scalar::Parsed;
use crate::scalar::ReaderExt;
use crate::scalar::WriterExt;
use crate::scalar::int_parse;
use crate::scalar::int_wire;
use crate::scalar::lemma_int_round_trip;
use crate::scalar::reads;
use crate::scalar::sink_took;

verus! {

/// The failure of a decoder that ran after `before` bytes were taken, as the
/// failure of the whole.
pub open spec fn failed<A, B>(before: nat, p: Parsed<A>) -> Parsed<B> {
    Parsed { outcome: Err(p.outcome->Err_0), consumed: before + p.consumed }
}

/// Whether a read into a record that gave `r`, left `after` of the input
/// `before` and took the record from `value` to `value_after` did what the
/// decoder `p` says: on success the record is the decoded one, on failure it
/// is untouched.
pub open spec fn reads_into<V>(
    before: Seq<u8>,
    after: Seq<u8>,
    r: Result<(), DecodeError>,
    value: V,
    value_after: V,
    p: Parsed<V>,
) -> bool {
    &&& after == before.skip(p.consumed as int)
    &&& match p.outcome {
        Ok(v) => r is Ok && value_after == v,
        Err(e) => r == Err::<(), DecodeError>(e) && value_after == value,
    }
}

/// A record with a wire form: it is written field by field in the order of
/// its declaration, with nothing between the fields, and read back the same
/// way.
pub trait BinaryStream: Sized + View {
    /// The bytes of the record `v`.
    spec fn wire(v: Self::V) -> Seq<u8>;

    /// What decoding a record makes of `input`.
    spec fn parse(input: Seq<u8>) -> Parsed<Self::V>;

    /// Whether the bytes of `v` say all of `v`.
    spec fn encodable(v: Self::V) -> bool;

    /// Decoding the bytes of a record gives the record back and takes those
    /// bytes only, whatever follows them.
    proof fn lemma_round_trip(v: Self::V, rest: Seq<u8>)
        requires
            Self::encodable(v),
        ensures
            Self::parse(Self::wire(v) + rest) == (Parsed {
                outcome: Ok::<Self::V, DecodeError>(v),
                consumed: Self::wire(v).len(),
            }),
    ;

    /// Decoding takes no more bytes than the input has.
    proof fn lemma_consumed(input: Seq<u8>)
        ensures
            Self::parse(input).consumed <= input.len(),
    ;

    /// Reads every field of the record from `r`. The record changes only
    /// when all of them were read.
    fn read<R: ByteSource>(&mut self, r: &mut R) -> (res: Result<(), DecodeError>)
        ensures
            reads_into(
                old(r).pending(),
                final(r).pending(),
                res,
                old(self)@,
                final(self)@,
                Self::parse(old(r).pending()),
            ),
    ;

    /// Writes every field of the record to `w`.
    fn write<W: ByteSink>(&self, w: &mut W) -> (res: Result<(), EncodeError>)
        ensures
            sink_took(
                old(w).written(),
                old(w).room(),
                final(w).written(),
                final(w).room(),
                res,
                Self::wire(self@),
            ),
    ;
}

/// Decoding a variant takes no more bytes than the input has.
pub proof fn lemma_enum_parse_consumed<E: EnumSpec>(input: Seq<u8>)
    ensures
        enum_parse::<E>(input).consumed <= input.len(),
{
    reveal(enum_parse);
    crate::scalar::lemma_int_parse_consumed(E::repr(), E::encoding(), input);
}

/// The bytes of the variant `v` of an enumerated type: its discriminant, as
/// an integer of the type and under the encoding that the enumerated type
/// fixes.
#[verifier::opaque]
pub open spec fn enum_wire<E: EnumSpec>(v: E) -> Seq<u8> {
    int_wire(E::repr(), E::encoding(), v.discriminant())
}

/// What decoding a variant of an enumerated type makes of `input`: the
/// variant whose discriminant the decoded integer is, and a failure that
/// holds the integer where no variant has it.
#[verifier::opaque]
pub open spec fn enum_parse<E: EnumSpec>(input: Seq<u8>) -> Parsed<E> {
    let p = int_parse(E::repr(), E::encoding(), input);
    Parsed {
        outcome: match p.outcome {
            Ok(d) => match E::variant(d) {
                Some(v) => Ok(v),
                None => Err(DecodeError::UnknownDiscriminant { value: d as i128 }),
            },
            Err(e) => Err(e),
        },
        consumed: p.consumed,
    }
}

/// What an enumerated type says of its wire form: the integer type and the
/// encoding of its discriminants, fixed once for the type, and the
/// discriminant of each variant. No two variants share one.
pub trait EnumSpec: Sized + Copy {
    /// The integer type of the discriminants.
    spec fn repr() -> IntType;

    /// The encoding of the discriminants.
    spec fn encoding() -> FieldEncoding;

    /// The discriminant of a variant.
    spec fn discriminant(self) -> int;

    /// The variant with the discriminant `d`, if there is one.
    spec fn variant(d: int) -> Option<Self>;

    /// A discriminant is a value of the integer type, and leads back to its
    /// variant: so no two variants share one.
    proof fn lemma_discriminant(self)
        ensures
            Self::repr().holds(self.discriminant()),
            Self::variant(self.discriminant()) == Some(self),
    ;

    /// A variant found by a discriminant has that discriminant.
    proof fn lemma_variant(d: int)
        ensures
            Self::variant(d) matches Some(v) ==> v.discriminant() == d,
    ;

    /// The integer type of the discriminants.
    fn int_type() -> (ty: IntType)
        ensures
            ty == Self::repr(),
    ;

    /// The encoding of the discriminants.
    fn field_encoding() -> (enc: FieldEncoding)
        ensures
            enc == Self::encoding(),
    ;

    /// The discriminant of the variant.
    fn to_discriminant(&self) -> (d: i128)
        ensures
            d == self.discriminant(),
    ;

    /// The variant with the discriminant `d`, if there is one.
    fn from_discriminant(d: i128) -> (v: Option<Self>)
        ensures
            v == Self::variant(d as int),
    ;

}

/// An enumerated type that goes over the wire as one integer, the
/// discriminant of the variant.
pub trait EnumBinaryStream: EnumSpec {
    /// Reads one discriminant and gives its variant.
    fn read<R: ByteSource>(r: &mut R) -> (res: Result<Self, DecodeError>)
        ensures
            reads(old(r).pending(), final(r).pending(), res, enum_parse::<Self>(old(r).pending())),
    {
        reveal(enum_parse);
        let d = match r.read_int(Self::int_type(), Self::field_encoding()) {
            Ok(d) => d,
            Err(e) => {
                return Err(e);
            },
        };
        match Self::from_discriminant(d) {
            Some(v) => Ok(v),
            None => Err(DecodeError::UnknownDiscriminant { value: d }),
        }
    }

    /// Writes the discriminant of the variant.
    fn write<W: ByteSink>(&self, w: &mut W) -> (res: Result<(), EncodeError>)
        ensures
            sink_took(
                old(w).written(),
                old(w).room(),
                final(w).written(),
                final(w).room(),
                res,
                enum_wire(*self),
            ),
    {
        reveal(enum_wire);
        w.write_int(Self::int_type(), Self::field_encoding(), self.to_discriminant())
    }
}

impl<E: EnumSpec> EnumBinaryStream for E {

}

/// Decoding the bytes of a variant gives the variant back and takes those
/// bytes only, whatever follows them.
pub proof fn lemma_enum_round_trip<E: EnumSpec>(v: E, rest: Seq<u8>)
    ensures
        enum_parse::<E>(enum_wire(v) + rest) == (Parsed {
            outcome: Ok::<E, DecodeError>(v),
            consumed: enum_wire(v).len(),
        }),
{
    reveal(enum_wire);
    reveal(enum_parse);
    v.lemma_discriminant();
    lemma_int_round_trip(E::repr(), E::encoding(), v.discriminant(), rest);
}

} // verus!
