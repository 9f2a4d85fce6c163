//! Reading and writing single scalar values: booleans, fixed-width integers
//! in either byte order, and variable-length integers.
//!
//! A floating-point value travels as the bits of its IEEE 754 form, which are
//! an unsigned integer of its width: the codec moves the bits and leaves the
//! arithmetic to its callers.

use vstd::prelude::*;
use crate::endian::Endianness;
use crate::endian::be_read_u16;
use crate::endian::be_read_u32;
use crate::endian::be_read_u64;
use crate::endian::be_write_u16;
use crate::endian::be_write_u32;
use crate::endian::be_write_u64;
use crate::endian::fixed_bytes;
use crate::endian::fixed_value;
use crate::endian::le_bytes;
use crate::endian::le_read_u16;
use crate::endian::le_read_u32;
use crate::endian::le_read_u64;
use crate::endian::le_value;
use crate::endian::le_write_u16;
use crate::endian::le_write_u32;
use crate::endian::le_write_u64;
use crate::error::DecodeError;
use crate::error::EncodeError;
use crate::varint::parse_varint;
use crate::varint::read_variable;
use crate::varint::varint_wire;
use crate::varint::write_variable;

verus! {

/// What a decoder makes of an input: the value or the failure, and how many
/// bytes it took from the front of the input on the way.
pub struct Parsed<T> {
    pub outcome: Result<T, DecodeError>,
    pub consumed: nat,
}

/// Whether a read that gave `r` and left `after` of the input `before` did
/// what the decoder `p` says.
pub open spec fn reads<T>(
    before: Seq<u8>,
    after: Seq<u8>,
    r: Result<T, DecodeError>,
    p: Parsed<T>,
) -> bool {
    &&& r == p.outcome
    &&& after == before.skip(p.consumed as int)
}

/// The part of `wire` that a sink with `room` bytes left takes.
pub open spec fn accepted(wire: Seq<u8>, room: nat) -> Seq<u8> {
    if wire.len() <= room {
        wire
    } else {
        wire.take(room as int)
    }
}

/// Whether a write of `wire` that gave `r` took a sink from
/// (`written`, `room`) to (`written_after`, `room_after`) as every sink does:
/// it takes the bytes in order while it has room, and the write succeeds
/// exactly when it took them all.
pub open spec fn sink_took(
    written: Seq<u8>,
    room: nat,
    written_after: Seq<u8>,
    room_after: nat,
    r: Result<(), EncodeError>,
    wire: Seq<u8>,
) -> bool {
    &&& written_after == written + accepted(wire, room)
    &&& room_after == room - accepted(wire, room).len()
    &&& r is Ok <==> wire.len() <= room
    &&& r is Err ==> r == Err::<(), EncodeError>(EncodeError::SinkFull)
}

/// What is left after `done` bytes and then `step` more is what is left
/// after `done + step`.
pub proof fn lemma_skip_more(input: Seq<u8>, done: nat, step: nat)
    requires
        done + step <= input.len(),
    ensures
        input.skip(done as int).skip(step as int) == input.skip((done + step) as int),
{
    assert(input.skip(done as int).skip(step as int) =~= input.skip((done + step) as int));
}

/// One more write, of `next`, to a sink that stood at (`written`, `room`)
/// and has taken `done` since: if it succeeds the sink has taken
/// `done + next`, and if it fails the sink is where a write of all of
/// `done + next + rest` would have left it.
pub proof fn lemma_write_step(
    written: Seq<u8>,
    room: nat,
    done: Seq<u8>,
    next: Seq<u8>,
    rest: Seq<u8>,
    written_after: Seq<u8>,
    room_after: nat,
    r: Result<(), EncodeError>,
)
    requires
        done.len() <= room,
        sink_took(written + done, (room - done.len()) as nat, written_after, room_after, r, next),
    ensures
        r is Ok ==> (done + next).len() <= room && written_after == written + (done + next)
            && room_after == room - (done + next).len(),
        r is Ok && rest.len() == 0 ==> sink_took(
            written,
            room,
            written_after,
            room_after,
            r,
            done + next + rest,
        ),
        r is Err ==> sink_took(written, room, written_after, room_after, r, done + next + rest),
{
    let left = (room - done.len()) as nat;
    let all = done + next + rest;
    if r is Ok {
        assert(written + done + next =~= written + (done + next));
        if rest.len() == 0 {
            assert(all =~= done + next);
        }
    } else {
        assert(next.len() > left);
        assert(all.len() > room);
        assert(all.take(room as int) =~= done + next.take(left as int));
        assert(written + done + next.take(left as int) =~= written + (done + next.take(
            left as int,
        )));
    }
}

/// A source of bytes, read front to back.
pub trait ByteSource: Sized {
    /// The bytes not yet read, next one first.
    spec fn pending(&self) -> Seq<u8>;

    /// Reads the next byte, if there is one.
    fn read_byte(&mut self) -> (r: Result<u8, DecodeError>)
        ensures
            reads(old(self).pending(), final(self).pending(), r, parse_u8(old(self).pending())),
    ;
}

/// A sink of bytes, which takes them in order while it has room.
pub trait ByteSink: Sized {
    /// The bytes written so far, first one first.
    spec fn written(&self) -> Seq<u8>;

    /// How many more bytes the sink takes.
    spec fn room(&self) -> nat;

    /// Writes one byte, if there is room for it.
    fn write_byte(&mut self, v: u8) -> (r: Result<(), EncodeError>)
        ensures
            sink_took(
                old(self).written(),
                old(self).room(),
                final(self).written(),
                final(self).room(),
                r,
                seq![v],
            ),
    ;
}

/// How an integer field is laid out: in a fixed number of bytes, or as a
/// variable-length integer.
#[derive(Clone, Copy, Debug, PartialEq, Eq, Structural)]
pub enum EncodingKind {
    FixedWidth,
    Varint,
}

/// The encoding of one scalar field. Byte order matters to fixed-width values
/// of more than one byte only.
#[derive(Clone, Copy, Debug, PartialEq, Eq, Structural)]
pub struct FieldEncoding {
    pub kind: EncodingKind,
    pub endianness: Endianness,
}

/// The fixed-width encoding in the given byte order.
pub open spec fn fixed_width(order: Endianness) -> FieldEncoding {
    FieldEncoding { kind: EncodingKind::FixedWidth, endianness: order }
}

/// The variable-length encoding.
pub open spec fn varint() -> FieldEncoding {
    FieldEncoding { kind: EncodingKind::Varint, endianness: Endianness::Little }
}

/// A mark on a field's declaration that changes its encoding.
#[derive(Clone, Copy, Debug, PartialEq, Eq, Structural)]
pub enum Annotation {
    LittleEndian,
    BigEndian,
    Varint,
}

impl FieldEncoding {
    /// The fixed-width encoding in the given byte order.
    pub fn fixed(order: Endianness) -> (e: Self)
        ensures
            e == fixed_width(order),
    {
        FieldEncoding { kind: EncodingKind::FixedWidth, endianness: order }
    }

    /// The variable-length encoding.
    pub fn variable() -> (e: Self)
        ensures
            e == varint(),
    {
        FieldEncoding { kind: EncodingKind::Varint, endianness: Endianness::Little }
    }

    /// The encoding that a field's annotations ask for: fixed-width and
    /// little-endian, but big-endian if `BigEndian` is among them, and
    /// variable-length if `Varint` is among them.
    pub fn from_annotations(marks: &[Annotation]) -> (e: Self)
        ensures
            e.endianness == Endianness::Big <==> marks@.contains(Annotation::BigEndian),
            e.kind == EncodingKind::Varint <==> marks@.contains(Annotation::Varint),
    {
        let mut little_endian = true;
        let mut variable = false;
        let mut i: usize = 0;
        while i < marks.len()
            invariant
                i <= marks.len(),
                !little_endian <==> marks@.take(i as int).contains(Annotation::BigEndian),
                variable <==> marks@.take(i as int).contains(Annotation::Varint),
            decreases marks.len() - i,
        {
            let mark = marks[i];
            proof {
                let before = marks@.take(i as int);
                let after = marks@.take(i + 1);
                assert(after =~= before.push(mark));
                assert forall|a: Annotation| after.contains(a) <==> before.contains(a) || a
                    == mark by {
                    if before.contains(a) {
                        let j = choose|j: int| 0 <= j < before.len() && before[j] == a;
                        assert(after[j] == a);
                    }
                    if a == mark {
                        assert(after[i as int] == a);
                    }
                }
            }
            match mark {
                Annotation::BigEndian => {
                    little_endian = false;
                },
                Annotation::Varint => {
                    variable = true;
                },
                Annotation::LittleEndian => {},
            }
            i = i + 1;
        }
        assert(marks@.take(marks.len() as int) =~= marks@);
        FieldEncoding {
            kind: if variable {
                EncodingKind::Varint
            } else {
                EncodingKind::FixedWidth
            },
            endianness: if little_endian {
                Endianness::Little
            } else {
                Endianness::Big
            },
        }
    }
}

impl Default for FieldEncoding {
    /// Fixed-width and little-endian.
    fn default() -> (e: Self)
        ensures
            e == fixed_width(Endianness::Little),
    {
        FieldEncoding { kind: EncodingKind::FixedWidth, endianness: Endianness::Little }
    }
}

/// The integer types that a field or an enumerated type's discriminant can
/// have.
#[derive(Clone, Copy, Debug, PartialEq, Eq, Structural)]
pub enum IntType {
    U8,
    I8,
    U16,
    I16,
    U32,
    I32,
    U64,
    I64,
}

impl IntType {
    /// The number of bytes of a value of the type.
    pub open spec fn width(self) -> nat {
        match self {
            IntType::U8 | IntType::I8 => 1,
            IntType::U16 | IntType::I16 => 2,
            IntType::U32 | IntType::I32 => 4,
            IntType::U64 | IntType::I64 => 8,
        }
    }

    /// Whether the type has negative values.
    pub open spec fn signed(self) -> bool {
        match self {
            IntType::I8 | IntType::I16 | IntType::I32 | IntType::I64 => true,
            _ => false,
        }
    }

    /// The number of bit patterns of the type: 2 to the power of its bits.
    pub open spec fn modulus(self) -> int {
        match self {
            IntType::U8 | IntType::I8 => 0x100,
            IntType::U16 | IntType::I16 => 0x1_0000,
            IntType::U32 | IntType::I32 => 0x1_0000_0000,
            IntType::U64 | IntType::I64 => 0x1_0000_0000_0000_0000,
        }
    }

    /// Whether `v` is a value of the type.
    pub open spec fn holds(self, v: int) -> bool {
        if self.signed() {
            -(self.modulus() / 2) <= v < self.modulus() / 2
        } else {
            0 <= v < self.modulus()
        }
    }

    /// The bit pattern of `v` in two's complement, as a natural number. A
    /// `v` outside the type is wrapped into it.
    pub open spec fn pattern(self, v: int) -> nat {
        (v % self.modulus()) as nat
    }

    /// The value of the type whose bit pattern is the low bits of `p`.
    pub open spec fn value(self, p: nat) -> int {
        let q = p as int % self.modulus();
        if self.signed() && q >= self.modulus() / 2 {
            q - self.modulus()
        } else {
            q
        }
    }
}

/// A value of the type is the value of its own bit pattern.
pub proof fn lemma_value_of_pattern(ty: IntType, v: int)
    requires
        ty.holds(v),
    ensures
        ty.value(ty.pattern(v)) == v,
        ty.pattern(v) < ty.modulus(),
{
}

/// The bit pattern of `v` in a type is that of the low 64 bits of `v`.
pub proof fn lemma_pattern_of_low(ty: IntType, v: int, low: int)
    requires
        low == v % 0x1_0000_0000_0000_0000,
    ensures
        ty.pattern(v) == low % ty.modulus(),
{
    let q = v / 0x1_0000_0000_0000_0000;
    assert(v == 0x1_0000_0000_0000_0000 * q + low);
    match ty {
        IntType::U8 | IntType::I8 => {
            let r = low % 0x100;
            let k = low / 0x100;
            assert(v == (0x100_0000_0000_0000 * q + k) * 0x100 + r);
            vstd::arithmetic::div_mod::lemma_fundamental_div_mod_converse(
                v,
                0x100,
                0x100_0000_0000_0000 * q + k,
                r,
            );
            assert(v % 0x100 == r);
        },
        IntType::U16 | IntType::I16 => {
            let r = low % 0x1_0000;
            let k = low / 0x1_0000;
            assert(v == (0x1_0000_0000_0000 * q + k) * 0x1_0000 + r);
            vstd::arithmetic::div_mod::lemma_fundamental_div_mod_converse(
                v,
                0x1_0000,
                0x1_0000_0000_0000 * q + k,
                r,
            );
            assert(v % 0x1_0000 == r);
        },
        IntType::U32 | IntType::I32 => {
            let r = low % 0x1_0000_0000;
            let k = low / 0x1_0000_0000;
            assert(v == (0x1_0000_0000 * q + k) * 0x1_0000_0000 + r);
            vstd::arithmetic::div_mod::lemma_fundamental_div_mod_converse(
                v,
                0x1_0000_0000,
                0x1_0000_0000 * q + k,
                r,
            );
            assert(v % 0x1_0000_0000 == r);
        },
        IntType::U64 | IntType::I64 => {
            assert(0 <= low < 0x1_0000_0000_0000_0000);
            assert(low % 0x1_0000_0000_0000_0000 == low);
        },
    }
}

/// The bytes of the integer `v` of type `ty` under the encoding `enc`.
pub open spec fn int_wire(ty: IntType, enc: FieldEncoding, v: int) -> Seq<u8> {
    match enc.kind {
        EncodingKind::Varint => varint_wire(ty.pattern(v)),
        EncodingKind::FixedWidth => fixed_bytes(ty.pattern(v), ty.width(), enc.endianness),
    }
}

/// What decoding an integer of type `ty` under the encoding `enc` makes of
/// `input`.
pub open spec fn int_parse(ty: IntType, enc: FieldEncoding, input: Seq<u8>) -> Parsed<int> {
    match enc.kind {
        EncodingKind::Varint => {
            let p = parse_varint(input);
            Parsed {
                outcome: match p.outcome {
                    Ok(x) => Ok(ty.value(x as nat)),
                    Err(e) => Err(e),
                },
                consumed: p.consumed,
            }
        },
        EncodingKind::FixedWidth => {
            if input.len() < ty.width() {
                Parsed { outcome: Err(DecodeError::UnexpectedEof), consumed: input.len() }
            } else {
                Parsed {
                    outcome: Ok(
                        ty.value(fixed_value(input.take(ty.width() as int), enc.endianness)),
                    ),
                    consumed: ty.width(),
                }
            }
        },
    }
}

/// A signed integer goes over the wire as the unsigned integer of the same
/// width that has its bits: nothing is folded, so a negative number takes
/// the most bytes as a variable-length integer.
pub proof fn lemma_signed_wire(enc: FieldEncoding, a: i8, b: i16, c: i32, d: i64)
    ensures
        int_wire(IntType::I8, enc, a as int) == int_wire(
            IntType::U8,
            enc,
            IntType::I8.pattern(a as int) as int,
        ),
        int_wire(IntType::I16, enc, b as int) == int_wire(
            IntType::U16,
            enc,
            IntType::I16.pattern(b as int) as int,
        ),
        int_wire(IntType::I32, enc, c as int) == int_wire(
            IntType::U32,
            enc,
            IntType::I32.pattern(c as int) as int,
        ),
        int_wire(IntType::I64, enc, d as int) == int_wire(
            IntType::U64,
            enc,
            IntType::I64.pattern(d as int) as int,
        ),
        c < 0 ==> IntType::I32.pattern(c as int) == c + 0x1_0000_0000 && int_wire(
            IntType::I32,
            varint(),
            c as int,
        ).len() == 5,
        d < 0 ==> IntType::I64.pattern(d as int) == d + 0x1_0000_0000_0000_0000 && int_wire(
            IntType::I64,
            varint(),
            d as int,
        ).len() == 10,
{
    reveal_with_fuel(crate::varint::group_weight, 11);
    if c < 0 {
        crate::varint::lemma_varint_wire_len(IntType::I32.pattern(c as int), 5);
    }
    if d < 0 {
        crate::varint::lemma_varint_wire_len(IntType::I64.pattern(d as int), 10);
    }
}

/// Decoding takes no more bytes than the input has.
pub proof fn lemma_int_parse_consumed(ty: IntType, enc: FieldEncoding, input: Seq<u8>)
    ensures
        int_parse(ty, enc, input).consumed <= input.len(),
{
    crate::varint::lemma_parse_varint_consumed(input);
}

/// Decoding the bytes of an integer gives the integer back and takes those
/// bytes only, whatever follows them.
pub proof fn lemma_int_round_trip(ty: IntType, enc: FieldEncoding, v: int, rest: Seq<u8>)
    requires
        ty.holds(v),
    ensures
        int_parse(ty, enc, int_wire(ty, enc, v) + rest) == (Parsed {
            outcome: Ok::<int, DecodeError>(v),
            consumed: int_wire(ty, enc, v).len(),
        }),
{
    let p = ty.pattern(v);
    let wire = int_wire(ty, enc, v);
    lemma_value_of_pattern(ty, v);
    match enc.kind {
        EncodingKind::Varint => {
            assert(p < 0x1_0000_0000_0000_0000);
            crate::varint::lemma_varint_round_trip(p as u64, rest);
            assert((p as u64) as nat == p);
        },
        EncodingKind::FixedWidth => {
            crate::endian::lemma_radix_values();
            crate::endian::lemma_fixed_value_of_bytes(p, ty.width(), enc.endianness);
            assert((wire + rest).take(ty.width() as int) =~= wire);
        },
    }
}

/// What reading `n` bytes makes of `input`.
pub open spec fn parse_bytes(n: nat, input: Seq<u8>) -> Parsed<Seq<u8>> {
    if input.len() < n {
        Parsed { outcome: Err(DecodeError::UnexpectedEof), consumed: input.len() }
    } else {
        Parsed { outcome: Ok(input.take(n as int)), consumed: n }
    }
}

/// The outcome of reading bytes, with the bytes as a sequence.
pub open spec fn bytes_outcome(r: Result<Vec<u8>, DecodeError>) -> Result<Seq<u8>, DecodeError> {
    match r {
        Ok(v) => Ok(v@),
        Err(e) => Err(e),
    }
}

/// What decoding one byte makes of `input`.
pub open spec fn parse_u8(input: Seq<u8>) -> Parsed<u8> {
    if input.len() == 0 {
        Parsed { outcome: Err(DecodeError::UnexpectedEof), consumed: 0 }
    } else {
        Parsed { outcome: Ok(input[0]), consumed: 1 }
    }
}

/// What decoding a signed byte makes of `input`.
pub open spec fn parse_i8(input: Seq<u8>) -> Parsed<i8> {
    if input.len() == 0 {
        Parsed { outcome: Err(DecodeError::UnexpectedEof), consumed: 0 }
    } else {
        Parsed { outcome: Ok(IntType::I8.value(input[0] as nat) as i8), consumed: 1 }
    }
}

/// What decoding a boolean makes of `input`: true for the byte 1, false for
/// every other byte.
pub open spec fn parse_bool(input: Seq<u8>) -> Parsed<bool> {
    if input.len() == 0 {
        Parsed { outcome: Err(DecodeError::UnexpectedEof), consumed: 0 }
    } else {
        Parsed { outcome: Ok(input[0] == 1), consumed: 1 }
    }
}

/// The byte of a boolean: 1 for true, 0 for false.
pub open spec fn bool_wire(v: bool) -> Seq<u8> {
    seq![if v { 1u8 } else { 0u8 }]
}

/// What decoding a `u16` under the encoding `enc` makes of `input`.
pub open spec fn parse_u16(enc: FieldEncoding, input: Seq<u8>) -> Parsed<u16> {
    let p = int_parse(IntType::U16, enc, input);
    Parsed {
        outcome: match p.outcome {
            Ok(v) => Ok(v as u16),
            Err(e) => Err(e),
        },
        consumed: p.consumed,
    }
}

/// What decoding a `i16` under the encoding `enc` makes of `input`.
pub open spec fn parse_i16(enc: FieldEncoding, input: Seq<u8>) -> Parsed<i16> {
    let p = int_parse(IntType::I16, enc, input);
    Parsed {
        outcome: match p.outcome {
            Ok(v) => Ok(v as i16),
            Err(e) => Err(e),
        },
        consumed: p.consumed,
    }
}

/// What decoding a `u32` under the encoding `enc` makes of `input`.
pub open spec fn parse_u32(enc: FieldEncoding, input: Seq<u8>) -> Parsed<u32> {
    let p = int_parse(IntType::U32, enc, input);
    Parsed {
        outcome: match p.outcome {
            Ok(v) => Ok(v as u32),
            Err(e) => Err(e),
        },
        consumed: p.consumed,
    }
}

/// What decoding a `i32` under the encoding `enc` makes of `input`.
pub open spec fn parse_i32(enc: FieldEncoding, input: Seq<u8>) -> Parsed<i32> {
    let p = int_parse(IntType::I32, enc, input);
    Parsed {
        outcome: match p.outcome {
            Ok(v) => Ok(v as i32),
            Err(e) => Err(e),
        },
        consumed: p.consumed,
    }
}

/// What decoding a `u64` under the encoding `enc` makes of `input`.
pub open spec fn parse_u64(enc: FieldEncoding, input: Seq<u8>) -> Parsed<u64> {
    let p = int_parse(IntType::U64, enc, input);
    Parsed {
        outcome: match p.outcome {
            Ok(v) => Ok(v as u64),
            Err(e) => Err(e),
        },
        consumed: p.consumed,
    }
}

/// What decoding a `i64` under the encoding `enc` makes of `input`.
pub open spec fn parse_i64(enc: FieldEncoding, input: Seq<u8>) -> Parsed<i64> {
    let p = int_parse(IntType::I64, enc, input);
    Parsed {
        outcome: match p.outcome {
            Ok(v) => Ok(v as i64),
            Err(e) => Err(e),
        },
        consumed: p.consumed,
    }
}

/// Decoding the byte of a boolean gives the boolean back, and decoding a byte
/// gives the byte back, signed or not, whatever follows it.
pub proof fn lemma_byte_round_trip(b: bool, u: u8, i: i8, rest: Seq<u8>)
    ensures
        parse_bool(bool_wire(b) + rest) == (Parsed {
            outcome: Ok::<bool, DecodeError>(b),
            consumed: 1,
        }),
        parse_u8(seq![u] + rest) == (Parsed { outcome: Ok::<u8, DecodeError>(u), consumed: 1 }),
        parse_i8(seq![IntType::I8.pattern(i as int) as u8] + rest) == (Parsed {
            outcome: Ok::<i8, DecodeError>(i),
            consumed: 1,
        }),
{
}

/// What decoding an integer of type `ty` under the encoding `enc` makes of
/// `input`, the value held in 128 bits.
pub open spec fn parse_wide(ty: IntType, enc: FieldEncoding, input: Seq<u8>) -> Parsed<i128> {
    let p = int_parse(ty, enc, input);
    Parsed {
        outcome: match p.outcome {
            Ok(v) => Ok(v as i128),
            Err(e) => Err(e),
        },
        consumed: p.consumed,
    }
}

/// The casts between the signed and the unsigned integers of one width, as
/// arithmetic.
proof fn lemma_sign_8(u: u8, v: i8)
    by (bit_vector)
    ensures
        (u as i8) as int == (if u >= 0x80u8 {
            u as int - 0x100int
        } else {
            u as int
        }),
        (v as u8) as int == (if v < 0i8 {
            v as int + 0x100int
        } else {
            v as int
        }),
{
}

proof fn lemma_sign_16(u: u16, v: i16)
    by (bit_vector)
    ensures
        (u as i16) as int == (if u >= 0x8000u16 {
            u as int - 0x1_0000int
        } else {
            u as int
        }),
        (v as u16) as int == (if v < 0i16 {
            v as int + 0x1_0000int
        } else {
            v as int
        }),
{
}

proof fn lemma_sign_32(u: u32, v: i32)
    by (bit_vector)
    ensures
        (u as i32) as int == (if u >= 0x8000_0000u32 {
            u as int - 0x1_0000_0000int
        } else {
            u as int
        }),
        (v as u32) as int == (if v < 0i32 {
            v as int + 0x1_0000_0000int
        } else {
            v as int
        }),
{
}

proof fn lemma_sign_64(u: u64, v: i64)
    by (bit_vector)
    ensures
        (u as i64) as int == (if u >= 0x8000_0000_0000_0000u64 {
            u as int - 0x1_0000_0000_0000_0000int
        } else {
            u as int
        }),
        (v as u64) as int == (if v < 0i64 {
            v as int + 0x1_0000_0000_0000_0000int
        } else {
            v as int
        }),
{
}

/// The casts that keep the low bits of a number, as arithmetic.
proof fn lemma_low_8(x: u64)
    by (bit_vector)
    ensures
        (x as u8) as int == (x % 0x100u64) as int,
{
}

proof fn lemma_low_16(x: u64)
    by (bit_vector)
    ensures
        (x as u16) as int == (x % 0x1_0000u64) as int,
{
}

proof fn lemma_low_32(x: u64)
    by (bit_vector)
    ensures
        (x as u32) as int == (x % 0x1_0000_0000u64) as int,
{
}

proof fn lemma_low_64(w: i128)
    by (bit_vector)
    ensures
        (w as u64) as int == (w as int) % 0x1_0000_0000_0000_0000int,
{
}

/// The scalar decoders, which every source of bytes has.
pub trait ReaderExt: ByteSource {
    /// Reads one byte.
    fn read_u8(&mut self) -> (r: Result<u8, DecodeError>)
        ensures
            reads(old(self).pending(), final(self).pending(), r, parse_u8(old(self).pending())),
    {
        self.read_byte()
    }

    /// Reads `n` bytes. A source that ends before that is read to its end.
    fn read_exact(&mut self, n: usize) -> (r: Result<Vec<u8>, DecodeError>)
        ensures
            reads(
                old(self).pending(),
                final(self).pending(),
                bytes_outcome(r),
                parse_bytes(n as nat, old(self).pending()),
            ),
    {
        let ghost input = self.pending();
        let mut out: Vec<u8> = Vec::new();
        let mut i: usize = 0;
        assert(input.skip(0) =~= input);
        assert(out@ =~= input.take(0));
        while i < n
            invariant
                i <= n,
                i <= input.len(),
                input == old(self).pending(),
                self.pending() == input.skip(i as int),
                out@ == input.take(i as int),
            decreases n - i,
        {
            match self.read_u8() {
                Ok(b) => {
                    out.push(b);
                    proof {
                        assert(input.skip(i as int)[0] == input[i as int]);
                        assert(out@ =~= input.take(i + 1));
                        assert(input.skip(i as int).skip(1) =~= input.skip(i + 1));
                    }
                },
                Err(e) => {
                    proof {
                        assert(input.skip(i as int).skip(0) =~= input.skip(i as int));
                    }
                    return Err(e);
                },
            }
            i = i + 1;
        }
        Ok(out)
    }

    /// Reads a signed byte.
    fn read_i8(&mut self) -> (r: Result<i8, DecodeError>)
        ensures
            reads(old(self).pending(), final(self).pending(), r, parse_i8(old(self).pending())),
    {
        match self.read_u8() {
            Ok(b) => {
                proof {
                    lemma_sign_8(b, 0);
                }
                Ok(#[verifier::truncate] (b as i8))
            },
            Err(e) => Err(e),
        }
    }

    /// Reads a boolean: one byte, true exactly when the byte is 1.
    fn read_bool(&mut self) -> (r: Result<bool, DecodeError>)
        ensures
            reads(old(self).pending(), final(self).pending(), r, parse_bool(old(self).pending())),
    {
        match self.read_u8() {
            Ok(b) => Ok(b == 1),
            Err(e) => Err(e),
        }
    }

    /// Reads a `u16` of 2 bytes in the given byte order.
    fn read_u16(&mut self, order: Endianness) -> (r: Result<u16, DecodeError>)
        ensures
            reads(
                old(self).pending(),
                final(self).pending(),
                r,
                parse_u16(fixed_width(order), old(self).pending()),
            ),
    {
        let bytes = match self.read_exact(2) {
            Ok(b) => b,
            Err(e) => {
                return Err(e);
            },
        };
        assert(bytes@.take(2) =~= bytes@);
        let v = match order {
            Endianness::Little => le_read_u16(bytes.as_slice()),
            Endianness::Big => be_read_u16(bytes.as_slice()),
        };
        assert((v as nat) as int % 0x1_0000 == v);
        Ok(v)
    }

    /// Reads an `i16` of 2 bytes in the given byte order.
    fn read_i16(&mut self, order: Endianness) -> (r: Result<i16, DecodeError>)
        ensures
            reads(
                old(self).pending(),
                final(self).pending(),
                r,
                parse_i16(fixed_width(order), old(self).pending()),
            ),
    {
        let bytes = match self.read_exact(2) {
            Ok(b) => b,
            Err(e) => {
                return Err(e);
            },
        };
        assert(bytes@.take(2) =~= bytes@);
        let u = match order {
            Endianness::Little => le_read_u16(bytes.as_slice()),
            Endianness::Big => be_read_u16(bytes.as_slice()),
        };
        proof {
            lemma_sign_16(u, 0);
            assert((u as nat) as int % 0x1_0000 == u);
        }
        Ok(#[verifier::truncate] (u as i16))
    }

    /// Reads a `u32` of 4 bytes in the given byte order.
    fn read_u32(&mut self, order: Endianness) -> (r: Result<u32, DecodeError>)
        ensures
            reads(
                old(self).pending(),
                final(self).pending(),
                r,
                parse_u32(fixed_width(order), old(self).pending()),
            ),
    {
        let bytes = match self.read_exact(4) {
            Ok(b) => b,
            Err(e) => {
                return Err(e);
            },
        };
        assert(bytes@.take(4) =~= bytes@);
        let v = match order {
            Endianness::Little => le_read_u32(bytes.as_slice()),
            Endianness::Big => be_read_u32(bytes.as_slice()),
        };
        assert((v as nat) as int % 0x1_0000_0000 == v);
        Ok(v)
    }

    /// Reads an `i32` of 4 bytes in the given byte order.
    fn read_i32(&mut self, order: Endianness) -> (r: Result<i32, DecodeError>)
        ensures
            reads(
                old(self).pending(),
                final(self).pending(),
                r,
                parse_i32(fixed_width(order), old(self).pending()),
            ),
    {
        let bytes = match self.read_exact(4) {
            Ok(b) => b,
            Err(e) => {
                return Err(e);
            },
        };
        assert(bytes@.take(4) =~= bytes@);
        let u = match order {
            Endianness::Little => le_read_u32(bytes.as_slice()),
            Endianness::Big => be_read_u32(bytes.as_slice()),
        };
        proof {
            lemma_sign_32(u, 0);
            assert((u as nat) as int % 0x1_0000_0000 == u);
        }
        Ok(#[verifier::truncate] (u as i32))
    }

    /// Reads a `u64` of 8 bytes in the given byte order.
    fn read_u64(&mut self, order: Endianness) -> (r: Result<u64, DecodeError>)
        ensures
            reads(
                old(self).pending(),
                final(self).pending(),
                r,
                parse_u64(fixed_width(order), old(self).pending()),
            ),
    {
        let bytes = match self.read_exact(8) {
            Ok(b) => b,
            Err(e) => {
                return Err(e);
            },
        };
        assert(bytes@.take(8) =~= bytes@);
        let v = match order {
            Endianness::Little => le_read_u64(bytes.as_slice()),
            Endianness::Big => be_read_u64(bytes.as_slice()),
        };
        assert((v as nat) as int % 0x1_0000_0000_0000_0000 == v);
        Ok(v)
    }

    /// Reads an `i64` of 8 bytes in the given byte order.
    fn read_i64(&mut self, order: Endianness) -> (r: Result<i64, DecodeError>)
        ensures
            reads(
                old(self).pending(),
                final(self).pending(),
                r,
                parse_i64(fixed_width(order), old(self).pending()),
            ),
    {
        let bytes = match self.read_exact(8) {
            Ok(b) => b,
            Err(e) => {
                return Err(e);
            },
        };
        assert(bytes@.take(8) =~= bytes@);
        let u = match order {
            Endianness::Little => le_read_u64(bytes.as_slice()),
            Endianness::Big => be_read_u64(bytes.as_slice()),
        };
        proof {
            lemma_sign_64(u, 0);
            assert((u as nat) as int % 0x1_0000_0000_0000_0000 == u);
        }
        Ok(#[verifier::truncate] (u as i64))
    }

    /// Reads a variable-length integer and keeps its low 32 bits.
    fn read_vu32(&mut self) -> (r: Result<u32, DecodeError>)
        ensures
            reads(
                old(self).pending(),
                final(self).pending(),
                r,
                parse_u32(varint(), old(self).pending()),
            ),
    {
        let x = match read_variable(self) {
            Ok(x) => x,
            Err(e) => {
                return Err(e);
            },
        };
        proof {
            lemma_low_32(x);
        }
        Ok(#[verifier::truncate] (x as u32))
    }

    /// Reads a variable-length integer and takes its low 32 bits as an
    /// `i32` in two's complement.
    fn read_vi32(&mut self) -> (r: Result<i32, DecodeError>)
        ensures
            reads(
                old(self).pending(),
                final(self).pending(),
                r,
                parse_i32(varint(), old(self).pending()),
            ),
    {
        let x = match read_variable(self) {
            Ok(x) => x,
            Err(e) => {
                return Err(e);
            },
        };
        let u: u32 = #[verifier::truncate] (x as u32);
        proof {
            lemma_low_32(x);
            lemma_sign_32(u, 0);
        }
        Ok(#[verifier::truncate] (u as i32))
    }

    /// Reads a variable-length integer and keeps its low 64 bits.
    fn read_vu64(&mut self) -> (r: Result<u64, DecodeError>)
        ensures
            reads(
                old(self).pending(),
                final(self).pending(),
                r,
                parse_u64(varint(), old(self).pending()),
            ),
    {
        let x = match read_variable(self) {
            Ok(x) => x,
            Err(e) => {
                return Err(e);
            },
        };
        Ok(x)
    }

    /// Reads a variable-length integer and takes its low 64 bits as an
    /// `i64` in two's complement.
    fn read_vi64(&mut self) -> (r: Result<i64, DecodeError>)
        ensures
            reads(
                old(self).pending(),
                final(self).pending(),
                r,
                parse_i64(varint(), old(self).pending()),
            ),
    {
        let x = match read_variable(self) {
            Ok(x) => x,
            Err(e) => {
                return Err(e);
            },
        };
        let u: u64 = x;
        proof {
            assert((x as nat) as int % 0x1_0000_0000_0000_0000 == x);
            lemma_sign_64(u, 0);
        }
        Ok(#[verifier::truncate] (u as i64))
    }

    /// Reads an integer of the type `ty` under the encoding `enc`, whichever
    /// they are.
    fn read_int(&mut self, ty: IntType, enc: FieldEncoding) -> (r: Result<i128, DecodeError>)
        ensures
            reads(
                old(self).pending(),
                final(self).pending(),
                r,
                parse_wide(ty, enc, old(self).pending()),
            ),
    {
        let ghost input = self.pending();
        match enc.kind {
            EncodingKind::Varint => {
                let x = match read_variable(self) {
                    Ok(x) => x,
                    Err(e) => {
                        return Err(e);
                    },
                };
                proof {
                    lemma_low_8(x);
                    lemma_low_16(x);
                    lemma_low_32(x);
                    lemma_sign_8(x as u8, 0);
                    lemma_sign_16(x as u16, 0);
                    lemma_sign_32(x as u32, 0);
                    lemma_sign_64(x, 0);
                }
                Ok(
                    match ty {
                        IntType::U8 => (#[verifier::truncate] (x as u8)) as i128,
                        IntType::I8 => (#[verifier::truncate] ((#[verifier::truncate] (x as u8))
                            as i8)) as i128,
                        IntType::U16 => (#[verifier::truncate] (x as u16)) as i128,
                        IntType::I16 => (#[verifier::truncate] ((#[verifier::truncate] (x
                            as u16)) as i16)) as i128,
                        IntType::U32 => (#[verifier::truncate] (x as u32)) as i128,
                        IntType::I32 => (#[verifier::truncate] ((#[verifier::truncate] (x
                            as u32)) as i32)) as i128,
                        IntType::U64 => x as i128,
                        IntType::I64 => (#[verifier::truncate] (x as i64)) as i128,
                    },
                )
            },
            EncodingKind::FixedWidth => {
                proof {
                    reveal_with_fuel(le_value, 2);
                    if input.len() > 0 {
                        assert(input.take(1).reverse() =~= input.take(1));
                        assert(input.take(1).skip(1).len() == 0);
                    }
                }
                match ty {
                    IntType::U8 => match self.read_u8() {
                        Ok(v) => Ok(v as i128),
                        Err(e) => Err(e),
                    },
                    IntType::I8 => match self.read_i8() {
                        Ok(v) => Ok(v as i128),
                        Err(e) => Err(e),
                    },
                    IntType::U16 => match self.read_u16(enc.endianness) {
                        Ok(v) => Ok(v as i128),
                        Err(e) => Err(e),
                    },
                    IntType::I16 => match self.read_i16(enc.endianness) {
                        Ok(v) => Ok(v as i128),
                        Err(e) => Err(e),
                    },
                    IntType::U32 => match self.read_u32(enc.endianness) {
                        Ok(v) => Ok(v as i128),
                        Err(e) => Err(e),
                    },
                    IntType::I32 => match self.read_i32(enc.endianness) {
                        Ok(v) => Ok(v as i128),
                        Err(e) => Err(e),
                    },
                    IntType::U64 => match self.read_u64(enc.endianness) {
                        Ok(v) => Ok(v as i128),
                        Err(e) => Err(e),
                    },
                    IntType::I64 => match self.read_i64(enc.endianness) {
                        Ok(v) => Ok(v as i128),
                        Err(e) => Err(e),
                    },
                }
            },
        }
    }
}

impl<T: ByteSource> ReaderExt for T {

}

/// The scalar encoders, which every sink of bytes has.
pub trait WriterExt: ByteSink {
    /// Writes one byte.
    fn write_u8(&mut self, v: u8) -> (r: Result<(), EncodeError>)
        ensures
            sink_took(
                old(self).written(),
                old(self).room(),
                final(self).written(),
                final(self).room(),
                r,
                seq![v],
            ),
    {
        self.write_byte(v)
    }

    /// Writes `bytes` in order, as far as the sink has room.
    fn write_all(&mut self, bytes: &[u8]) -> (r: Result<(), EncodeError>)
        ensures
            sink_took(
                old(self).written(),
                old(self).room(),
                final(self).written(),
                final(self).room(),
                r,
                bytes@,
            ),
    {
        let mut i: usize = 0;
        assert(old(self).written() + bytes@.take(0) =~= old(self).written());
        while i < bytes.len()
            invariant
                i <= bytes.len(),
                i <= old(self).room(),
                self.written() == old(self).written() + bytes@.take(i as int),
                self.room() == old(self).room() - i,
            decreases bytes.len() - i,
        {
            let b = bytes[i];
            let r = self.write_u8(b);
            proof {
                assert(bytes@.take(i as int) + seq![b] =~= bytes@.take(i + 1));
                assert(bytes@.take(i + 1) + bytes@.skip(i + 1) =~= bytes@);
                lemma_write_step(
                    old(self).written(),
                    old(self).room(),
                    bytes@.take(i as int),
                    seq![b],
                    bytes@.skip(i + 1),
                    self.written(),
                    self.room(),
                    r,
                );
            }
            if r.is_err() {
                return r;
            }
            i = i + 1;
        }
        assert(bytes@.take(bytes.len() as int) =~= bytes@);
        Ok(())
    }

    /// Writes a signed byte.
    fn write_i8(&mut self, v: i8) -> (r: Result<(), EncodeError>)
        ensures
            sink_took(
                old(self).written(),
                old(self).room(),
                final(self).written(),
                final(self).room(),
                r,
                seq![IntType::I8.pattern(v as int) as u8],
            ),
    {
        proof {
            lemma_sign_8(0, v);
        }
        self.write_u8(#[verifier::truncate] (v as u8))
    }

    /// Writes a boolean as one byte, 1 for true and 0 for false.
    fn write_bool(&mut self, v: bool) -> (r: Result<(), EncodeError>)
        ensures
            sink_took(
                old(self).written(),
                old(self).room(),
                final(self).written(),
                final(self).room(),
                r,
                bool_wire(v),
            ),
    {
        self.write_u8(if v { 1 } else { 0 })
    }

    /// Writes a `u16` in 2 bytes in the given byte order.
    fn write_u16(&mut self, v: u16, order: Endianness) -> (r: Result<(), EncodeError>)
        ensures
            sink_took(
                old(self).written(),
                old(self).room(),
                final(self).written(),
                final(self).room(),
                r,
                int_wire(IntType::U16, fixed_width(order), v as int),
            ),
    {
        match order {
            Endianness::Little => {
                let bytes = le_write_u16(v);
                self.write_all(bytes.as_slice())
            },
            Endianness::Big => {
                let bytes = be_write_u16(v);
                self.write_all(bytes.as_slice())
            },
        }
    }

    /// Writes an `i16` in 2 bytes in the given byte order.
    fn write_i16(&mut self, v: i16, order: Endianness) -> (r: Result<(), EncodeError>)
        ensures
            sink_took(
                old(self).written(),
                old(self).room(),
                final(self).written(),
                final(self).room(),
                r,
                int_wire(IntType::I16, fixed_width(order), v as int),
            ),
    {
        let u: u16 = #[verifier::truncate] (v as u16);
        proof {
            lemma_sign_16(0, v);
        }
        match order {
            Endianness::Little => {
                let bytes = le_write_u16(u);
                self.write_all(bytes.as_slice())
            },
            Endianness::Big => {
                let bytes = be_write_u16(u);
                self.write_all(bytes.as_slice())
            },
        }
    }

    /// Writes a `u32` in 4 bytes in the given byte order.
    fn write_u32(&mut self, v: u32, order: Endianness) -> (r: Result<(), EncodeError>)
        ensures
            sink_took(
                old(self).written(),
                old(self).room(),
                final(self).written(),
                final(self).room(),
                r,
                int_wire(IntType::U32, fixed_width(order), v as int),
            ),
    {
        match order {
            Endianness::Little => {
                let bytes = le_write_u32(v);
                self.write_all(bytes.as_slice())
            },
            Endianness::Big => {
                let bytes = be_write_u32(v);
                self.write_all(bytes.as_slice())
            },
        }
    }

    /// Writes an `i32` in 4 bytes in the given byte order.
    fn write_i32(&mut self, v: i32, order: Endianness) -> (r: Result<(), EncodeError>)
        ensures
            sink_took(
                old(self).written(),
                old(self).room(),
                final(self).written(),
                final(self).room(),
                r,
                int_wire(IntType::I32, fixed_width(order), v as int),
            ),
    {
        let u: u32 = #[verifier::truncate] (v as u32);
        proof {
            lemma_sign_32(0, v);
        }
        match order {
            Endianness::Little => {
                let bytes = le_write_u32(u);
                self.write_all(bytes.as_slice())
            },
            Endianness::Big => {
                let bytes = be_write_u32(u);
                self.write_all(bytes.as_slice())
            },
        }
    }

    /// Writes a `u64` in 8 bytes in the given byte order.
    fn write_u64(&mut self, v: u64, order: Endianness) -> (r: Result<(), EncodeError>)
        ensures
            sink_took(
                old(self).written(),
                old(self).room(),
                final(self).written(),
                final(self).room(),
                r,
                int_wire(IntType::U64, fixed_width(order), v as int),
            ),
    {
        match order {
            Endianness::Little => {
                let bytes = le_write_u64(v);
                self.write_all(bytes.as_slice())
            },
            Endianness::Big => {
                let bytes = be_write_u64(v);
                self.write_all(bytes.as_slice())
            },
        }
    }

    /// Writes an `i64` in 8 bytes in the given byte order.
    fn write_i64(&mut self, v: i64, order: Endianness) -> (r: Result<(), EncodeError>)
        ensures
            sink_took(
                old(self).written(),
                old(self).room(),
                final(self).written(),
                final(self).room(),
                r,
                int_wire(IntType::I64, fixed_width(order), v as int),
            ),
    {
        let u: u64 = #[verifier::truncate] (v as u64);
        proof {
            lemma_sign_64(0, v);
        }
        match order {
            Endianness::Little => {
                let bytes = le_write_u64(u);
                self.write_all(bytes.as_slice())
            },
            Endianness::Big => {
                let bytes = be_write_u64(u);
                self.write_all(bytes.as_slice())
            },
        }
    }

    /// Writes a `u32` as a variable-length integer.
    fn write_vu32(&mut self, v: u32) -> (r: Result<(), EncodeError>)
        ensures
            sink_took(
                old(self).written(),
                old(self).room(),
                final(self).written(),
                final(self).room(),
                r,
                int_wire(IntType::U32, varint(), v as int),
            ),
    {
        write_variable(self, v as u64)
    }

    /// Writes an `i32` as a variable-length integer: its 32 bits in two's
    /// complement, taken as an unsigned number.
    fn write_vi32(&mut self, v: i32) -> (r: Result<(), EncodeError>)
        ensures
            sink_took(
                old(self).written(),
                old(self).room(),
                final(self).written(),
                final(self).room(),
                r,
                int_wire(IntType::I32, varint(), v as int),
            ),
    {
        let u: u32 = #[verifier::truncate] (v as u32);
        proof {
            lemma_sign_32(0, v);
        }
        write_variable(self, u as u64)
    }

    /// Writes a `u64` as a variable-length integer.
    fn write_vu64(&mut self, v: u64) -> (r: Result<(), EncodeError>)
        ensures
            sink_took(
                old(self).written(),
                old(self).room(),
                final(self).written(),
                final(self).room(),
                r,
                int_wire(IntType::U64, varint(), v as int),
            ),
    {
        write_variable(self, v as u64)
    }

    /// Writes an `i64` as a variable-length integer: its 64 bits in two's
    /// complement, taken as an unsigned number.
    fn write_vi64(&mut self, v: i64) -> (r: Result<(), EncodeError>)
        ensures
            sink_took(
                old(self).written(),
                old(self).room(),
                final(self).written(),
                final(self).room(),
                r,
                int_wire(IntType::I64, varint(), v as int),
            ),
    {
        let u: u64 = #[verifier::truncate] (v as u64);
        proof {
            lemma_sign_64(0, v);
        }
        write_variable(self, u as u64)
    }

    /// Writes the integer `v` as one of the type `ty` under the encoding
    /// `enc`, whichever they are. A `v` outside the type is wrapped into it.
    fn write_int(&mut self, ty: IntType, enc: FieldEncoding, v: i128) -> (r: Result<
        (),
        EncodeError,
    >)
        ensures
            sink_took(
                old(self).written(),
                old(self).room(),
                final(self).written(),
                final(self).room(),
                r,
                int_wire(ty, enc, v as int),
            ),
    {
        let low: u64 = #[verifier::truncate] (v as u64);
        proof {
            lemma_low_64(v);
            lemma_low_8(low);
            lemma_low_16(low);
            lemma_low_32(low);
        }
        let bits: u64 = match ty {
            IntType::U8 | IntType::I8 => (#[verifier::truncate] (low as u8)) as u64,
            IntType::U16 | IntType::I16 => (#[verifier::truncate] (low as u16)) as u64,
            IntType::U32 | IntType::I32 => (#[verifier::truncate] (low as u32)) as u64,
            IntType::U64 | IntType::I64 => low,
        };
        proof {
            lemma_pattern_of_low(ty, v as int, low as int);
        }
        match enc.kind {
            EncodingKind::Varint => write_variable(self, bits),
            EncodingKind::FixedWidth => {
                match ty {
                    IntType::U8 | IntType::I8 => {
                        proof {
                            reveal_with_fuel(le_bytes, 2);
                            assert(le_bytes(bits as nat, 1) =~= seq![bits as u8]);
                            assert(seq![bits as u8].reverse() =~= seq![bits as u8]);
                        }
                        self.write_u8(bits as u8)
                    },
                    IntType::U16 | IntType::I16 => self.write_u16(bits as u16, enc.endianness),
                    IntType::U32 | IntType::I32 => self.write_u32(bits as u32, enc.endianness),
                    IntType::U64 | IntType::I64 => self.write_u64(bits, enc.endianness),
                }
            },
        }
    }
}

impl<T: ByteSink> WriterExt for T {

}

} // verus!
