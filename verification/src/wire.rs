//! Little-endian fields and the 8-bit frame checksum.

use vstd::prelude::*;

verus! {

/// The two bytes of `x`, least significant first.
pub open spec fn u16_le_bytes(x: u16) -> Seq<u8> {
    seq![(x % 256) as u8, (x / 256) as u8]
}

/// The four bytes of `x`, least significant first.
pub open spec fn u32_le_bytes(x: u32) -> Seq<u8> {
    seq![
        (x % 256) as u8,
        (x / 256 % 256) as u8,
        (x / 65536 % 256) as u8,
        (x / 16777216) as u8,
    ]
}

/// The value spelled by the first two bytes of `b`, least significant first.
pub open spec fn u16_from_le(b: Seq<u8>) -> u16
    recommends
        b.len() >= 2,
{
    (b[0] + 256 * b[1]) as u16
}

/// The value spelled by the first four bytes of `b`, least significant first.
pub open spec fn u32_from_le(b: Seq<u8>) -> u32
    recommends
        b.len() >= 4,
{
    (b[0] + 256 * b[1] + 65536 * b[2] + 16777216 * b[3]) as u32
}

/// Sum of all bytes of `s`, without wraparound.
pub open spec fn byte_sum(s: Seq<u8>) -> nat
    decreases s.len(),
{
    if s.len() == 0 {
        0
    } else {
        byte_sum(s.drop_last()) + s.last() as nat
    }
}

/// The 8-bit wraparound sum of `s`.
pub open spec fn checksum(s: Seq<u8>) -> u8 {
    (byte_sum(s) % 256) as u8
}

/// A byte below a higher part splits back into the two under division by 256.
proof fn lemma_split_low_byte(lo: u8, rest: nat)
    ensures
        (lo + 256 * rest) % 256 == lo as int,
        (lo + 256 * rest) / 256 == rest as int,
{
    let x = lo + 256 * rest;
    assert(x == 256 * (x / 256) + x % 256);
    assert(0 <= x % 256 < 256);
}

/// `u16_le_bytes` undoes `u16_from_le` on two bytes.
pub proof fn lemma_u16_le_of_bytes(b: Seq<u8>)
    requires
        b.len() == 2,
    ensures
        u16_from_le(b) == b[0] + 256 * b[1],
        u16_le_bytes(u16_from_le(b)) == b,
{
    lemma_split_low_byte(b[0], b[1] as nat);
    assert(u16_le_bytes(u16_from_le(b)) =~= b);
}

/// `u32_le_bytes` undoes `u32_from_le` on four bytes.
pub proof fn lemma_u32_le_of_bytes(b: Seq<u8>)
    requires
        b.len() == 4,
    ensures
        u32_from_le(b) == b[0] + 256 * b[1] + 65536 * b[2] + 16777216 * b[3],
        u32_le_bytes(u32_from_le(b)) == b,
{
    let r2: nat = b[2] as nat + 256 * b[3] as nat;
    let r1: nat = b[1] as nat + 256 * r2;
    let x: nat = b[0] as nat + 256 * r1;
    lemma_split_low_byte(b[0], r1);
    lemma_split_low_byte(b[1], r2);
    lemma_split_low_byte(b[2], b[3] as nat);
    assert(x / 256 == r1);
    assert(x / 65536 == r2) by {
        assert(x / 65536 == (x / 256) / 256) by (nonlinear_arith);
    }
    assert(x / 16777216 == b[3] as nat) by {
        assert(x / 16777216 == (x / 65536) / 256) by (nonlinear_arith);
    }
    assert(u32_le_bytes(u32_from_le(b)) =~= b);
}

/// `u16_from_le` undoes `u16_le_bytes`.
pub proof fn lemma_u16_from_le_bytes(x: u16)
    ensures
        u16_le_bytes(x).len() == 2,
        u16_from_le(u16_le_bytes(x)) == x,
{
}

/// `u32_from_le` undoes `u32_le_bytes`.
pub proof fn lemma_u32_from_le_bytes(x: u32)
    ensures
        u32_le_bytes(x).len() == 4,
        u32_from_le(u32_le_bytes(x)) == x,
{
    let b = u32_le_bytes(x);
    assert(x / 65536 == (x / 256) / 256) by (nonlinear_arith);
    assert(x / 16777216 == (x / 65536) / 256) by (nonlinear_arith);
    let r1 = x / 256;
    let r2 = r1 / 256;
    let r3 = r2 / 256;
    assert(x == 256 * r1 + x % 256);
    assert(r1 == 256 * r2 + r1 % 256);
    assert(r2 == 256 * r3 + r2 % 256);
    assert(r3 < 256);
    assert(b[0] == x % 256);
    assert(b[1] == r1 % 256);
    assert(b[2] == r2 % 256);
    assert(b[3] == r3);
}

/// Appends the little-endian bytes of `x` to `out`.
pub fn push_u32_le(out: &mut Vec<u8>, x: u32)
    ensures
        final(out)@ == old(out)@ + u32_le_bytes(x),
{
    out.push((x % 256) as u8);
    out.push((x / 256 % 256) as u8);
    out.push((x / 65536 % 256) as u8);
    out.push((x / 16777216) as u8);
}

/// Reads a little-endian `u16` from a two-byte slice.
pub(crate) fn read_u16_le(b: &[u8]) -> (x: u16)
    requires
        b@.len() == 2,
    ensures
        x == u16_from_le(b@),
        u16_le_bytes(x) == b@,
{
    proof {
        lemma_u16_le_of_bytes(b@);
    }
    let lo: u16 = b[0] as u16;
    let hi: u16 = b[1] as u16;
    lo + 256 * hi
}

/// Reads a little-endian `u32` from a four-byte slice.
pub(crate) fn read_u32_le(b: &[u8]) -> (x: u32)
    requires
        b@.len() == 4,
    ensures
        x == u32_from_le(b@),
        u32_le_bytes(x) == b@,
{
    proof {
        lemma_u32_le_of_bytes(b@);
    }
    let b0: u32 = b[0] as u32;
    let b1: u32 = b[1] as u32;
    let b2: u32 = b[2] as u32;
    let b3: u32 = b[3] as u32;
    b0 + 256 * b1 + 65536 * b2 + 16777216 * b3
}

/// The bytes of `bytes` in the opposite order.
pub fn reversed(bytes: &[u8]) -> (out: Vec<u8>)
    ensures
        out@ == bytes@.reverse(),
{
    let n = bytes.len();
    let mut out: Vec<u8> = Vec::with_capacity(n);
    let mut i: usize = n;
    while i > 0
        invariant
            i <= n,
            n == bytes@.len(),
            out@.len() == n - i,
            forall|k: int| 0 <= k < out@.len() ==> out@[k] == bytes@[n - 1 - k],
        decreases i,
    {
        i -= 1;
        out.push(bytes[i]);
    }
    proof {
        assert(out@ =~= bytes@.reverse());
    }
    out
}

/// Computes the 8-bit wraparound sum of `bytes`.
pub fn checksum_of(bytes: &[u8]) -> (sum: u8)
    ensures
        sum == checksum(bytes@),
{
    let mut sum: u8 = 0;
    let mut i: usize = 0;
    while i < bytes.len()
        invariant
            i <= bytes@.len(),
            sum == checksum(bytes@.take(i as int)),
        decreases bytes@.len() - i,
    {
        proof {
            assert(bytes@.take(i + 1).drop_last() == bytes@.take(i as int));
        }
        sum = sum.wrapping_add(bytes[i]);
        i += 1;
    }
    proof {
        assert(bytes@.take(i as int) == bytes@);
    }
    sum
}

} // verus!
