//! Variable-length integers: seven bits to a byte, least significant group
//! first, the high bit of a byte saying that another byte follows.

use vstd::prelude::*;
use crate::error::DecodeError;
use crate::error::EncodeError;
use crate::scalar::Parsed;
use crate::scalar::ByteSink;
use crate::scalar::ByteSource;
use crate::scalar::lemma_write_step;
use crate::scalar::reads;
use crate::scalar::sink_took;

verus! {

/// The most groups that a variable-length integer may have.
pub const MAX_GROUPS: usize = 10;

/// 128 to the power `n`.
pub open spec fn group_weight(n: nat) -> nat
    decreases n,
{
    if n == 0 {
        1
    } else {
        128 * group_weight((n - 1) as nat)
    }
}

/// The bytes of `v` as a variable-length integer.
pub open spec fn varint_wire(v: nat) -> Seq<u8>
    decreases v,
{
    if v < 128 {
        seq![v as u8]
    } else {
        seq![(128 + v % 128) as u8] + varint_wire(v / 128)
    }
}

/// How many bytes at the front of `s` say that another byte follows.
pub open spec fn continued(s: Seq<u8>) -> nat
    decreases s.len(),
{
    if s.len() == 0 || s[0] < 128 {
        0
    } else {
        1 + continued(s.skip(1))
    }
}

/// The number that the low seven bits of the first `k` bytes of `s` spell,
/// least significant group first.
pub open spec fn groups_value(s: Seq<u8>, k: nat) -> nat
    decreases k,
{
    if k == 0 {
        0
    } else {
        (s[0] % 128) as nat + 128 * groups_value(s.skip(1), (k - 1) as nat)
    }
}

/// What decoding a variable-length integer makes of `input`. The groups are
/// gathered into 64 bits, and what does not fit is dropped.
pub open spec fn parse_varint(input: Seq<u8>) -> Parsed<u64> {
    let c = continued(input);
    if c >= MAX_GROUPS {
        Parsed { outcome: Err(DecodeError::MalformedVarint), consumed: MAX_GROUPS as nat }
    } else if c == input.len() {
        Parsed { outcome: Err(DecodeError::UnexpectedEof), consumed: c }
    } else {
        Parsed {
            outcome: Ok((groups_value(input, c + 1) % 0x1_0000_0000_0000_0000) as u64),
            consumed: c + 1,
        }
    }
}

/// No more bytes go on than there are.
pub proof fn lemma_continued_bound(s: Seq<u8>)
    ensures
        continued(s) <= s.len(),
    decreases s.len(),
{
    if s.len() > 0 && s[0] >= 128 {
        lemma_continued_bound(s.skip(1));
    }
}

/// Decoding takes no more bytes than the input has.
pub proof fn lemma_parse_varint_consumed(input: Seq<u8>)
    ensures
        parse_varint(input).consumed <= input.len(),
{
    lemma_continued_bound(input);
}

/// While the front of `s` goes on, it counts as continued.
pub proof fn lemma_continued_at_least(s: Seq<u8>, k: nat)
    requires
        k <= s.len(),
        forall|j: int| 0 <= j < k ==> s[j] >= 128,
    ensures
        continued(s) >= k,
        k < s.len() && s[k as int] < 128 ==> continued(s) == k,
        k == s.len() ==> continued(s) == k,
    decreases k,
{
    if k > 0 {
        let t = s.skip(1);
        assert forall|j: int| 0 <= j < k - 1 implies t[j] >= 128 by {
            assert(t[j] == s[j + 1]);
        }
        lemma_continued_at_least(t, (k - 1) as nat);
    }
}

/// One more group adds its seven bits above those gathered so far.
pub proof fn lemma_groups_value_step(s: Seq<u8>, k: nat)
    requires
        k < s.len(),
    ensures
        groups_value(s, k + 1) == groups_value(s, k) + (s[k as int] % 128) * group_weight(k),
    decreases k,
{
    let t = s.skip(1);
    let g = (s[k as int] % 128) as nat;
    if k > 0 {
        lemma_groups_value_step(t, (k - 1) as nat);
        assert(t[k - 1] == s[k as int]);
        let w = group_weight((k - 1) as nat);
        assert(groups_value(t, k) == groups_value(t, (k - 1) as nat) + g * w);
        assert(groups_value(s, k + 1) == (s[0] % 128) as nat + 128 * groups_value(t, k));
        assert(groups_value(s, k) == (s[0] % 128) as nat + 128 * groups_value(
            t,
            (k - 1) as nat,
        ));
        assert(group_weight(k) == 128 * w);
        assert(128 * (g * w) == g * (128 * w)) by (nonlinear_arith);
    } else {
        assert(groups_value(t, 0) == 0);
        assert(groups_value(s, 1) == (s[0] % 128) as nat + 128 * groups_value(t, 0));
        assert(g * 1 == g) by (nonlinear_arith);
    }
}

/// `k` groups spell a number below 128 to the power `k`.
pub proof fn lemma_groups_value_bound(s: Seq<u8>, k: nat)
    ensures
        groups_value(s, k) < group_weight(k),
    decreases k,
{
    if k > 0 {
        lemma_groups_value_bound(s.skip(1), (k - 1) as nat);
    }
}

/// A number below 128 to the power `k` takes at most `k` bytes, and exactly
/// `k` when it is not below 128 to the power `k - 1`.
pub proof fn lemma_varint_wire_len(v: nat, k: nat)
    requires
        k >= 1,
        v < group_weight(k),
    ensures
        1 <= varint_wire(v).len() <= k,
        k == 1 || v >= group_weight((k - 1) as nat) ==> varint_wire(v).len() == k,
    decreases k,
{
    reveal_with_fuel(group_weight, 2);
    if v >= 128 {
        lemma_varint_wire_len(v / 128, (k - 1) as nat);
    }
}

/// Every 64-bit number takes at most ten bytes, and every 32-bit number at
/// most five.
pub proof fn lemma_varint_wire_len_bounds(v: nat)
    ensures
        v < 0x1_0000_0000_0000_0000 ==> 1 <= varint_wire(v).len() <= 10,
        v < 0x1_0000_0000 ==> 1 <= varint_wire(v).len() <= 5,
        v < 0x1_0000 ==> 1 <= varint_wire(v).len() <= 3,
        v < 0x100 ==> 1 <= varint_wire(v).len() <= 2,
{
    reveal_with_fuel(group_weight, 11);
    if v < 0x100 {
        lemma_varint_wire_len(v, 2);
    }
    if v < 0x1_0000 {
        lemma_varint_wire_len(v, 3);
    }
    if v < 0x1_0000_0000 {
        lemma_varint_wire_len(v, 5);
    }
    if v < 0x1_0000_0000_0000_0000 {
        lemma_varint_wire_len(v, 10);
    }
}

/// In the bytes of `v`, whatever follows them, all but the last say that
/// another follows, and their groups spell `v`.
pub proof fn lemma_varint_wire_groups(v: nat, rest: Seq<u8>)
    ensures
        continued(varint_wire(v) + rest) == varint_wire(v).len() - 1,
        groups_value(varint_wire(v) + rest, varint_wire(v).len()) == v,
    decreases v,
{
    let wire = varint_wire(v);
    let s = wire + rest;
    if v < 128 {
        assert(s[0] == v);
        assert(groups_value(s.skip(1), 0) == 0);
    } else {
        let tail = varint_wire(v / 128);
        lemma_varint_wire_groups(v / 128, rest);
        assert(s[0] == 128 + v % 128);
        assert(s.skip(1) =~= tail + rest);
        assert(wire.len() == tail.len() + 1);
    }
}

/// Decoding the bytes of a 64-bit number gives the number back and takes
/// those bytes only, whatever follows them.
pub proof fn lemma_varint_round_trip(v: u64, rest: Seq<u8>)
    ensures
        parse_varint(varint_wire(v as nat) + rest) == (Parsed {
            outcome: Ok::<u64, DecodeError>(v),
            consumed: varint_wire(v as nat).len(),
        }),
{
    lemma_varint_wire_groups(v as nat, rest);
    lemma_varint_wire_len_bounds(v as nat);
}

/// The low seven bits of a byte are its group, and its high bit says
/// whether another byte follows.
proof fn lemma_byte_bits(b: u8)
    by (bit_vector)
    ensures
        ((b as u64) & 0b0111_1111u64) == b % 128,
        ((b as u64) & 0b1000_0000u64) == 0 <==> b < 128,
{
}

/// A group shifted to its place lies wholly above what was gathered before
/// it, as long as it fits in 64 bits.
proof fn lemma_gather(before: u64, val: u64, shift: u64, weight: u64)
    by (bit_vector)
    requires
        shift <= 56,
        weight == 1u64 << shift,
        before < weight,
        val < 128,
    ensures
        (before | (val << shift)) == before + val * weight,
        (1u64 << ((shift + 7) as u64)) == 128 * weight,
{
}

/// Of the tenth group only the lowest bit fits in 64 bits.
proof fn lemma_gather_last(before: u64, val: u64)
    by (bit_vector)
    requires
        before < 0x8000_0000_0000_0000u64,
        val < 128,
    ensures
        (before | (val << 63u64)) == before + (val % 2) * 0x8000_0000_0000_0000u64,
        (1u64 << 63u64) == 0x8000_0000_0000_0000u64,
{
}

/// What the tenth group adds, less what does not fit in 64 bits.
proof fn lemma_last_group(before: int, val: int)
    requires
        0 <= before < 0x8000_0000_0000_0000,
        0 <= val < 128,
    ensures
        (before + val * 0x8000_0000_0000_0000) % 0x1_0000_0000_0000_0000 == before + (val % 2)
            * 0x8000_0000_0000_0000,
{
    let q = val / 2;
    let low = before + (val % 2) * 0x8000_0000_0000_0000;
    assert(before + val * 0x8000_0000_0000_0000 == q * 0x1_0000_0000_0000_0000 + low);
    vstd::arithmetic::div_mod::lemma_fundamental_div_mod_converse(
        before + val * 0x8000_0000_0000_0000,
        0x1_0000_0000_0000_0000,
        q,
        low,
    );
}

/// Reads a variable-length integer into 64 bits.
pub fn read_variable<R: ByteSource>(r: &mut R) -> (res: Result<u64, DecodeError>)
    ensures
        reads(old(r).pending(), final(r).pending(), res, parse_varint(old(r).pending())),
{
    let ghost input = r.pending();
    let ghost mut taken: nat = 0;
    let ghost mut weight: u64 = 1;
    let mut v: u64 = 0;
    let mut shift: u64 = 0;
    assert(input.skip(0) =~= input);
    assert(1u64 << 0u64 == 1u64) by (bit_vector);
    while shift < 64
        invariant
            input == old(r).pending(),
            r.pending() == input.skip(taken as int),
            taken <= input.len(),
            taken <= MAX_GROUPS,
            shift == 7 * taken,
            forall|j: int| 0 <= j < taken ==> input[j] >= 128,
            taken < MAX_GROUPS ==> v == groups_value(input, taken) && weight == group_weight(taken)
                && weight == 1u64 << shift,
        decreases 70 - shift,
    {
        let byte = match r.read_byte() {
            Ok(b) => b,
            Err(e) => {
                proof {
                    lemma_continued_at_least(input, taken);
                    assert(input.skip(taken as int).skip(0) =~= input.skip(taken as int));
                }
                return Err(e);
            },
        };
        let vx = byte as u64;
        let val = vx & 0b0111_1111u64;
        let last = (vx & 0b1000_0000u64) == 0;
        let ghost before = v;
        v = v | (val << shift);
        proof {
            assert(input.skip(taken as int)[0] == input[taken as int]);
            assert(input.skip(taken as int).skip(1) =~= input.skip(taken as int + 1));
            lemma_groups_value_step(input, taken);
            lemma_groups_value_bound(input, taken);
            lemma_groups_value_bound(input, taken + 1);
            lemma_byte_bits(byte);
            if shift <= 56 {
                lemma_gather(before, val, shift, weight);
            } else {
                assert(group_weight(9) == 0x8000_0000_0000_0000) by {
                    reveal_with_fuel(group_weight, 10);
                }
                lemma_gather_last(before, val);
                lemma_last_group(before as int, val as int);
            }
        }
        if last {
            proof {
                lemma_continued_at_least(input, taken);
            }
            return Ok(v);
        }
        shift = shift + 7;
        proof {
            taken = taken + 1;
            weight = if shift <= 63 {
                (128 * weight) as u64
            } else {
                weight
            };
        }
    }
    proof {
        lemma_continued_at_least(input, taken);
    }
    Err(DecodeError::MalformedVarint)
}

/// Taking the low group off a number that has more than one: the byte that
/// holds the group says that another follows, and what is left is the number
/// shifted down.
proof fn lemma_shift_group(x: u64)
    by (bit_vector)
    requires
        x > 0x7f,
    ensures
        (x >> 7) < x,
        (x >> 7) == x / 128,
        ((x & 0x7f) as u8 | 0x80u8) == 128 + x % 128,
{
}

/// Writes `v` as a variable-length integer.
pub fn write_variable<W: ByteSink>(w: &mut W, v: u64) -> (r: Result<(), EncodeError>)
    ensures
        sink_took(
            old(w).written(),
            old(w).room(),
            final(w).written(),
            final(w).room(),
            r,
            varint_wire(v as nat),
        ),
{
    let ghost full = varint_wire(v as nat);
    let ghost mut sent: Seq<u8> = Seq::empty();
    let mut remainder = v;
    assert(sent + varint_wire(remainder as nat) =~= full);
    assert(old(w).written() + sent =~= old(w).written());
    while remainder > 0x7f
        invariant
            full == varint_wire(v as nat),
            full == sent + varint_wire(remainder as nat),
            w.written() == old(w).written() + sent,
            w.room() == old(w).room() - sent.len(),
            sent.len() <= old(w).room(),
        decreases remainder,
    {
        let data: u8 = #[verifier::truncate] ((remainder & 0x7f) as u8);
        let byte: u8 = data | 0x80;
        proof {
            lemma_shift_group(remainder);
        }
        remainder = remainder >> 7;
        let r = w.write_byte(byte);
        proof {
            let rest = varint_wire(remainder as nat);
            assert(full =~= sent + seq![byte] + rest);
            lemma_write_step(
                old(w).written(),
                old(w).room(),
                sent,
                seq![byte],
                rest,
                w.written(),
                w.room(),
                r,
            );
            sent = sent + seq![byte];
        }
        if r.is_err() {
            return r;
        }
    }
    let last: u8 = remainder as u8;
    let r = w.write_byte(last);
    proof {
        assert(full =~= sent + seq![last] + Seq::<u8>::empty());
        lemma_write_step(
            old(w).written(),
            old(w).room(),
            sent,
            seq![last],
            Seq::empty(),
            w.written(),
            w.room(),
            r,
        );
    }
    r
}

} // verus!
