//! Fixed-width little-endian integers, as they stand on the wire.

use vstd::prelude::*;

verus! {

/// The two bytes of `v`, least significant first.
#[verifier::opaque]
pub open spec fn u16_le(v: u16) -> Seq<u8> {
    seq![(v % 256) as u8, (v / 256) as u8]
}

/// The four bytes of `v`, least significant first.
#[verifier::opaque]
pub open spec fn u32_le(v: u32) -> Seq<u8> {
    seq![
        (v % 256) as u8,
        (v / 0x100 % 256) as u8,
        (v / 0x1_0000 % 256) as u8,
        (v / 0x100_0000) as u8,
    ]
}

/// The eight bytes of `v`, least significant first.
#[verifier::opaque]
pub open spec fn u64_le(v: u64) -> Seq<u8> {
    seq![
        (v % 256) as u8,
        (v / 0x100 % 256) as u8,
        (v / 0x1_0000 % 256) as u8,
        (v / 0x100_0000 % 256) as u8,
        (v / 0x1_0000_0000 % 256) as u8,
        (v / 0x100_0000_0000 % 256) as u8,
        (v / 0x1_0000_0000_0000 % 256) as u8,
        (v / 0x100_0000_0000_0000) as u8,
    ]
}

/// The four bytes of `v`, most significant first.
#[verifier::opaque]
pub open spec fn u32_be(v: u32) -> Seq<u8> {
    seq![
        (v / 0x100_0000) as u8,
        (v / 0x1_0000 % 256) as u8,
        (v / 0x100 % 256) as u8,
        (v % 256) as u8,
    ]
}

/// The number whose little-endian bytes are the first two of `s`.
#[verifier::opaque]
pub open spec fn le_u16(s: Seq<u8>) -> u16
    recommends
        s.len() >= 2,
{
    (s[0] as int + s[1] as int * 0x100) as u16
}

/// The number whose little-endian bytes are the first four of `s`.
#[verifier::opaque]
pub open spec fn le_u32(s: Seq<u8>) -> u32
    recommends
        s.len() >= 4,
{
    (s[0] as int + s[1] as int * 0x100 + s[2] as int * 0x1_0000 + s[3] as int * 0x100_0000) as u32
}

/// The number whose little-endian bytes are the first eight of `s`.
#[verifier::opaque]
pub open spec fn le_u64(s: Seq<u8>) -> u64
    recommends
        s.len() >= 8,
{
    (s[0] as int + s[1] as int * 0x100 + s[2] as int * 0x1_0000 + s[3] as int * 0x100_0000
        + s[4] as int * 0x1_0000_0000 + s[5] as int * 0x100_0000_0000 + s[6] as int
        * 0x1_0000_0000_0000 + s[7] as int * 0x100_0000_0000_0000) as u64
}

/// Reading back the little-endian bytes of a 16-bit number gives the number,
/// whatever follows them.
pub proof fn lemma_u16_le_round_trip(v: u16, rest: Seq<u8>)
    ensures
        u16_le(v).len() == 2,
        le_u16(u16_le(v) + rest) == v,
{
    reveal(u16_le);
    reveal(le_u16);
}

/// Reading back the little-endian bytes of a 32-bit number gives the number,
/// whatever follows them.
pub proof fn lemma_u32_le_round_trip(v: u32, rest: Seq<u8>)
    ensures
        u32_le(v).len() == 4,
        le_u32(u32_le(v) + rest) == v,
{
    reveal(u32_le);
    reveal(le_u32);
}

/// Reading back the little-endian bytes of a 64-bit number gives the number,
/// whatever follows them.
pub proof fn lemma_u64_le_round_trip(v: u64, rest: Seq<u8>)
    ensures
        u64_le(v).len() == 8,
        le_u64(u64_le(v) + rest) == v,
{
    reveal(u64_le);
    reveal(le_u64);
    let n = v as int;
    let q1 = n / 0x100;
    let q2 = n / 0x1_0000;
    let q3 = n / 0x100_0000;
    let q4 = n / 0x1_0000_0000;
    let q5 = n / 0x100_0000_0000;
    let q6 = n / 0x1_0000_0000_0000;
    let q7 = n / 0x100_0000_0000_0000;
    assert(n == n % 256 + 256 * q1);
    assert(q1 == q1 % 256 + 256 * q2);
    assert(q2 == q2 % 256 + 256 * q3);
    assert(q3 == q3 % 256 + 256 * q4);
    assert(q4 == q4 % 256 + 256 * q5);
    assert(q5 == q5 % 256 + 256 * q6);
    assert(q6 == q6 % 256 + 256 * q7);
    assert(q7 < 256);
    let s = u64_le(v) + rest;
    assert(s[0] == (n % 256) as u8);
    assert(s[1] == (q1 % 256) as u8);
    assert(s[2] == (q2 % 256) as u8);
    assert(s[3] == (q3 % 256) as u8);
    assert(s[4] == (q4 % 256) as u8);
    assert(s[5] == (q5 % 256) as u8);
    assert(s[6] == (q6 % 256) as u8);
    assert(s[7] == q7 as u8);
}

/// Appends the two little-endian bytes of `v` to `out`.
pub fn push_u16_le(out: &mut Vec<u8>, v: u16)
    ensures
        final(out)@ == old(out)@ + u16_le(v),
{
    out.push((v % 256) as u8);
    out.push((v / 256) as u8);
    proof {
        reveal(u16_le);
    }
    assert(out@ =~= old(out)@ + u16_le(v));
}

/// Appends the four little-endian bytes of `v` to `out`.
pub fn push_u32_le(out: &mut Vec<u8>, v: u32)
    ensures
        final(out)@ == old(out)@ + u32_le(v),
{
    out.push((v % 256) as u8);
    out.push((v / 0x100 % 256) as u8);
    out.push((v / 0x1_0000 % 256) as u8);
    out.push((v / 0x100_0000) as u8);
    proof {
        reveal(u32_le);
    }
    assert(out@ =~= old(out)@ + u32_le(v));
}

/// Appends the eight little-endian bytes of `v` to `out`.
pub fn push_u64_le(out: &mut Vec<u8>, v: u64)
    ensures
        final(out)@ == old(out)@ + u64_le(v),
{
    out.push((v % 256) as u8);
    out.push((v / 0x100 % 256) as u8);
    out.push((v / 0x1_0000 % 256) as u8);
    out.push((v / 0x100_0000 % 256) as u8);
    out.push((v / 0x1_0000_0000 % 256) as u8);
    out.push((v / 0x100_0000_0000 % 256) as u8);
    out.push((v / 0x1_0000_0000_0000 % 256) as u8);
    out.push((v / 0x100_0000_0000_0000) as u8);
    proof {
        reveal(u64_le);
    }
    assert(out@ =~= old(out)@ + u64_le(v));
}

/// Reads the 16-bit little-endian number that starts at `at`.
pub fn read_u16_le(bytes: &[u8], at: usize) -> (v: u16)
    requires
        at + 2 <= bytes@.len(),
    ensures
        v == le_u16(bytes@.skip(at as int)),
{
    proof {
        reveal(le_u16);
    }
    bytes[at] as u16 + bytes[at + 1] as u16 * 0x100
}

/// Reads the 32-bit little-endian number that starts at `at`.
pub fn read_u32_le(bytes: &[u8], at: usize) -> (v: u32)
    requires
        at + 4 <= bytes@.len(),
    ensures
        v == le_u32(bytes@.skip(at as int)),
{
    proof {
        reveal(le_u32);
    }
    bytes[at] as u32 + bytes[at + 1] as u32 * 0x100 + bytes[at + 2] as u32 * 0x1_0000 + bytes[at
        + 3] as u32 * 0x100_0000
}

/// Reads the 64-bit little-endian number that starts at `at`.
pub fn read_u64_le(bytes: &[u8], at: usize) -> (v: u64)
    requires
        at + 8 <= bytes@.len(),
    ensures
        v == le_u64(bytes@.skip(at as int)),
{
    proof {
        reveal(le_u64);
    }
    bytes[at] as u64 + bytes[at + 1] as u64 * 0x100 + bytes[at + 2] as u64 * 0x1_0000 + bytes[at
        + 3] as u64 * 0x100_0000 + bytes[at + 4] as u64 * 0x1_0000_0000 + bytes[at + 5] as u64
        * 0x100_0000_0000 + bytes[at + 6] as u64 * 0x1_0000_0000_0000 + bytes[at + 7] as u64
        * 0x100_0000_0000_0000
}

} // verus!
