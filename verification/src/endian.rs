//! Fixed-width integers as bytes in little-endian and big-endian order.
//!
//! The conversions are made by the `byteorder` crate. What the functions at
//! the end of this module say of it is taken from its documentation and its
//! source, and is not proved here; all else is.

use vstd::prelude::*;
use byteorder::ByteOrder;

verus! {

/// The order in which the bytes of a fixed-width value stand on the wire.
#[derive(Clone, Copy, Debug, PartialEq, Eq, Structural)]
pub enum Endianness {
    /// Least significant byte first.
    Little,
    /// Most significant byte first.
    Big,
}

/// 256 to the power `n`: one more than the largest value that `n` bytes hold.
pub open spec fn radix(n: nat) -> nat
    decreases n,
{
    if n == 0 {
        1
    } else {
        256 * radix((n - 1) as nat)
    }
}

/// The `n` low bytes of `v`, least significant first.
pub open spec fn le_bytes(v: nat, n: nat) -> Seq<u8>
    decreases n,
{
    if n == 0 {
        Seq::empty()
    } else {
        seq![(v % 256) as u8] + le_bytes(v / 256, (n - 1) as nat)
    }
}

/// The number that `s` spells, least significant byte first.
pub open spec fn le_value(s: Seq<u8>) -> nat
    decreases s.len(),
{
    if s.len() == 0 {
        0
    } else {
        s[0] as nat + 256 * le_value(s.skip(1))
    }
}

/// The `n` low bytes of `v` in the given order.
pub open spec fn fixed_bytes(v: nat, n: nat, order: Endianness) -> Seq<u8> {
    match order {
        Endianness::Little => le_bytes(v, n),
        Endianness::Big => le_bytes(v, n).reverse(),
    }
}

/// The number that `s` spells in the given order.
pub open spec fn fixed_value(s: Seq<u8>, order: Endianness) -> nat {
    match order {
        Endianness::Little => le_value(s),
        Endianness::Big => le_value(s.reverse()),
    }
}

/// `le_bytes` gives as many bytes as it is asked for.
pub proof fn lemma_le_bytes_len(v: nat, n: nat)
    ensures
        le_bytes(v, n).len() == n,
    decreases n,
{
    if n > 0 {
        lemma_le_bytes_len(v / 256, (n - 1) as nat);
    }
}

/// A number that fits in `n` bytes is read back from its `n` bytes.
pub proof fn lemma_le_value_of_bytes(v: nat, n: nat)
    requires
        v < radix(n),
    ensures
        le_value(le_bytes(v, n)) == v,
    decreases n,
{
    if n > 0 {
        let rest = le_bytes(v / 256, (n - 1) as nat);
        lemma_le_bytes_len(v / 256, (n - 1) as nat);
        lemma_le_value_of_bytes(v / 256, (n - 1) as nat);
        assert(le_bytes(v, n).skip(1) =~= rest);
    }
}

/// The bytes of a number are read back from them in either order.
pub proof fn lemma_fixed_value_of_bytes(v: nat, n: nat, order: Endianness)
    requires
        v < radix(n),
    ensures
        fixed_bytes(v, n, order).len() == n,
        fixed_value(fixed_bytes(v, n, order), order) == v,
{
    lemma_le_bytes_len(v, n);
    lemma_le_value_of_bytes(v, n);
    assert(le_bytes(v, n).reverse().reverse() =~= le_bytes(v, n));
}

/// What 2, 4 and 8 bytes hold.
pub proof fn lemma_radix_values()
    ensures
        radix(1) == 0x100,
        radix(2) == 0x1_0000,
        radix(4) == 0x1_0000_0000,
        radix(8) == 0x1_0000_0000_0000_0000,
{
    reveal_with_fuel(radix, 9);
}

/// The value of `byteorder::LittleEndian::read_u16`: the first two bytes
/// of `buf` as a number, least significant byte first. The outside function
/// panics on a shorter buffer, which `requires` leaves out.
#[verifier::external_body]
pub(crate) fn le_read_u16(buf: &[u8]) -> (v: u16)
    requires
        buf@.len() >= 2,
    ensures
        v == fixed_value(buf@.take(2), Endianness::Little),
{
    byteorder::LittleEndian::read_u16(buf)
}

/// The value of `byteorder::BigEndian::read_u16`: the first two bytes
/// of `buf` as a number, most significant byte first. The outside function
/// panics on a shorter buffer, which `requires` leaves out.
#[verifier::external_body]
pub(crate) fn be_read_u16(buf: &[u8]) -> (v: u16)
    requires
        buf@.len() >= 2,
    ensures
        v == fixed_value(buf@.take(2), Endianness::Big),
{
    byteorder::BigEndian::read_u16(buf)
}

/// The value of `byteorder::LittleEndian::read_u32`: the first four bytes
/// of `buf` as a number, least significant byte first. The outside function
/// panics on a shorter buffer, which `requires` leaves out.
#[verifier::external_body]
pub(crate) fn le_read_u32(buf: &[u8]) -> (v: u32)
    requires
        buf@.len() >= 4,
    ensures
        v == fixed_value(buf@.take(4), Endianness::Little),
{
    byteorder::LittleEndian::read_u32(buf)
}

/// The value of `byteorder::BigEndian::read_u32`: the first four bytes
/// of `buf` as a number, most significant byte first. The outside function
/// panics on a shorter buffer, which `requires` leaves out.
#[verifier::external_body]
pub(crate) fn be_read_u32(buf: &[u8]) -> (v: u32)
    requires
        buf@.len() >= 4,
    ensures
        v == fixed_value(buf@.take(4), Endianness::Big),
{
    byteorder::BigEndian::read_u32(buf)
}

/// The value of `byteorder::LittleEndian::read_u64`: the first eight bytes
/// of `buf` as a number, least significant byte first. The outside function
/// panics on a shorter buffer, which `requires` leaves out.
#[verifier::external_body]
pub(crate) fn le_read_u64(buf: &[u8]) -> (v: u64)
    requires
        buf@.len() >= 8,
    ensures
        v == fixed_value(buf@.take(8), Endianness::Little),
{
    byteorder::LittleEndian::read_u64(buf)
}

/// The value of `byteorder::BigEndian::read_u64`: the first eight bytes
/// of `buf` as a number, most significant byte first. The outside function
/// panics on a shorter buffer, which `requires` leaves out.
#[verifier::external_body]
pub(crate) fn be_read_u64(buf: &[u8]) -> (v: u64)
    requires
        buf@.len() >= 8,
    ensures
        v == fixed_value(buf@.take(8), Endianness::Big),
{
    byteorder::BigEndian::read_u64(buf)
}

/// What `byteorder::LittleEndian::write_u16` puts into a buffer of two
/// bytes: the bytes of `v`, least significant first.
#[verifier::external_body]
pub(crate) fn le_write_u16(v: u16) -> (out: [u8; 2])
    ensures
        out@ == fixed_bytes(v as nat, 2, Endianness::Little),
{
    let mut buf = [0u8; 2];
    byteorder::LittleEndian::write_u16(&mut buf, v);
    buf
}

/// What `byteorder::BigEndian::write_u16` puts into a buffer of two
/// bytes: the bytes of `v`, most significant first.
#[verifier::external_body]
pub(crate) fn be_write_u16(v: u16) -> (out: [u8; 2])
    ensures
        out@ == fixed_bytes(v as nat, 2, Endianness::Big),
{
    let mut buf = [0u8; 2];
    byteorder::BigEndian::write_u16(&mut buf, v);
    buf
}

/// What `byteorder::LittleEndian::write_u32` puts into a buffer of four
/// bytes: the bytes of `v`, least significant first.
#[verifier::external_body]
pub(crate) fn le_write_u32(v: u32) -> (out: [u8; 4])
    ensures
        out@ == fixed_bytes(v as nat, 4, Endianness::Little),
{
    let mut buf = [0u8; 4];
    byteorder::LittleEndian::write_u32(&mut buf, v);
    buf
}

/// What `byteorder::BigEndian::write_u32` puts into a buffer of four
/// bytes: the bytes of `v`, most significant first.
#[verifier::external_body]
pub(crate) fn be_write_u32(v: u32) -> (out: [u8; 4])
    ensures
        out@ == fixed_bytes(v as nat, 4, Endianness::Big),
{
    let mut buf = [0u8; 4];
    byteorder::BigEndian::write_u32(&mut buf, v);
    buf
}

/// What `byteorder::LittleEndian::write_u64` puts into a buffer of eight
/// bytes: the bytes of `v`, least significant first.
#[verifier::external_body]
pub(crate) fn le_write_u64(v: u64) -> (out: [u8; 8])
    ensures
        out@ == fixed_bytes(v as nat, 8, Endianness::Little),
{
    let mut buf = [0u8; 8];
    byteorder::LittleEndian::write_u64(&mut buf, v);
    buf
}

/// What `byteorder::BigEndian::write_u64` puts into a buffer of eight
/// bytes: the bytes of `v`, most significant first.
#[verifier::external_body]
pub(crate) fn be_write_u64(v: u64) -> (out: [u8; 8])
    ensures
        out@ == fixed_bytes(v as nat, 8, Endianness::Big),
{
    let mut buf = [0u8; 8];
    byteorder::BigEndian::write_u64(&mut buf, v);
    buf
}

} // verus!
