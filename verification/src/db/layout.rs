//! Big-endian encoding of the integers that the stored records hold: 128-bit
//! signed integers, written as two 64-bit halves, most significant first.
use vstd::prelude::*;

verus! {

/// 2^64, the base of the two halves.
pub open spec fn half_base() -> int {
    0x1_0000_0000_0000_0000
}

/// The byte of `u` that starts `shift` bits from its least significant end.
pub open spec fn byte_of(u: u64, shift: u64) -> u8 {
    ((u >> shift) & 0xff) as u8
}

/// The unsigned value of eight big-endian bytes.
pub open spec fn be_u64(b0: u8, b1: u8, b2: u8, b3: u8, b4: u8, b5: u8, b6: u8, b7: u8) -> u64 {
    ((b0 as u64) << 56) | ((b1 as u64) << 48) | ((b2 as u64) << 40) | ((b3 as u64) << 32) | ((
    b4 as u64) << 24) | ((b5 as u64) << 16) | ((b6 as u64) << 8) | (b7 as u64)
}

/// The unsigned 64-bit integer stored big-endian at `at..at + 8` of `s`.
pub open spec fn u64_at(s: Seq<u8>, at: int) -> u64 {
    be_u64(s[at], s[at + 1], s[at + 2], s[at + 3], s[at + 4], s[at + 5], s[at + 6], s[at + 7])
}

/// The eight big-endian bytes of `u`.
pub open spec fn u64_bytes(u: u64) -> Seq<u8> {
    seq![
        byte_of(u, 56u64),
        byte_of(u, 48u64),
        byte_of(u, 40u64),
        byte_of(u, 32u64),
        byte_of(u, 24u64),
        byte_of(u, 16u64),
        byte_of(u, 8u64),
        byte_of(u, 0u64),
    ]
}

/// Whether `v` is in the range of `i128`.
pub open spec fn fits_i128(v: int) -> bool {
    i128::MIN <= v <= i128::MAX
}

/// Two's complement reading of a 128-bit pattern.
pub open spec fn signed128(u: int) -> int {
    if u < 0x8000_0000_0000_0000_0000_0000_0000_0000 {
        u
    } else {
        u - 0x1_0000_0000_0000_0000_0000_0000_0000_0000
    }
}

/// Two's complement pattern of a value in the range of `i128`.
pub open spec fn unsigned128(v: int) -> int {
    if v >= 0 {
        v
    } else {
        v + 0x1_0000_0000_0000_0000_0000_0000_0000_0000
    }
}

/// The signed 128-bit integer stored big-endian at `at..at + 16` of `s`.
pub open spec fn i128_at(s: Seq<u8>, at: int) -> int {
    signed128(u64_at(s, at) * half_base() + u64_at(s, at + 8))
}

/// The sixteen big-endian bytes of a value in the range of `i128`.
pub open spec fn i128_bytes(v: int) -> Seq<u8> {
    let u = unsigned128(v);
    u64_bytes((u / half_base()) as u64) + u64_bytes((u % half_base()) as u64)
}

/// `s` with the sixteen bytes at `at..at + 16` replaced by `bytes`.
pub open spec fn splice16(s: Seq<u8>, at: int, bytes: Seq<u8>) -> Seq<u8> {
    s.subrange(0, at) + bytes + s.subrange(at + 16, s.len() as int)
}

/// The bytes of a 64-bit pattern read back give the pattern.
pub proof fn lemma_u64_roundtrip(u: u64, s: Seq<u8>, at: int)
    requires
        0 <= at,
        at + 8 <= s.len(),
        s.subrange(at, at + 8) == u64_bytes(u),
    ensures
        u64_at(s, at) == u,
{
    assert(s[at] == u64_bytes(u)[0]);
    assert(s[at + 1] == u64_bytes(u)[1]);
    assert(s[at + 2] == u64_bytes(u)[2]);
    assert(s[at + 3] == u64_bytes(u)[3]);
    assert(s[at + 4] == u64_bytes(u)[4]);
    assert(s[at + 5] == u64_bytes(u)[5]);
    assert(s[at + 6] == u64_bytes(u)[6]);
    assert(s[at + 7] == u64_bytes(u)[7]);
    assert(((((u >> 56u64) & 0xff) as u8) as u64) << 56 | ((((u >> 48u64) & 0xff) as u8) as u64)
        << 48 | ((((u >> 40u64) & 0xff) as u8) as u64) << 40 | ((((u >> 32u64) & 0xff) as u8) as u64)
        << 32 | ((((u >> 24u64) & 0xff) as u8) as u64) << 24 | ((((u >> 16u64) & 0xff) as u8) as u64)
        << 16 | ((((u >> 8u64) & 0xff) as u8) as u64) << 8 | ((((u >> 0u64) & 0xff) as u8) as u64)
        == u) by (bit_vector);
}

/// Writing the 64-bit pattern read at `at` back to `at` changes nothing.
pub proof fn lemma_u64_bytes_of_read(s: Seq<u8>, at: int)
    requires
        0 <= at,
        at + 8 <= s.len(),
    ensures
        u64_bytes(u64_at(s, at)) == s.subrange(at, at + 8),
{
    let (b0, b1, b2, b3, b4, b5, b6, b7) = (
        s[at],
        s[at + 1],
        s[at + 2],
        s[at + 3],
        s[at + 4],
        s[at + 5],
        s[at + 6],
        s[at + 7],
    );
    let u = be_u64(b0, b1, b2, b3, b4, b5, b6, b7);
    assert(((u >> 56u64) & 0xff) as u8 == b0 && ((u >> 48u64) & 0xff) as u8 == b1 && ((u >> 40u64)
        & 0xff) as u8 == b2 && ((u >> 32u64) & 0xff) as u8 == b3 && ((u >> 24u64) & 0xff) as u8
        == b4 && ((u >> 16u64) & 0xff) as u8 == b5 && ((u >> 8u64) & 0xff) as u8 == b6 && ((u
        >> 0u64) & 0xff) as u8 == b7) by (bit_vector)
        requires
            u == ((b0 as u64) << 56) | ((b1 as u64) << 48) | ((b2 as u64) << 40) | ((b3 as u64)
                << 32) | ((b4 as u64) << 24) | ((b5 as u64) << 16) | ((b6 as u64) << 8) | (
            b7 as u64),
    ;
    assert(u64_bytes(u64_at(s, at)) =~= s.subrange(at, at + 8));
}

/// Reading the bytes written for `v` gives `v` back.
pub proof fn lemma_i128_roundtrip(v: int, s: Seq<u8>, at: int)
    requires
        fits_i128(v),
        0 <= at,
        at + 16 <= s.len(),
        s.subrange(at, at + 16) == i128_bytes(v),
    ensures
        i128_at(s, at) == v,
{
    let u = unsigned128(v);
    let hi = (u / half_base()) as u64;
    let lo = (u % half_base()) as u64;
    assert(s.subrange(at, at + 8) =~= i128_bytes(v).subrange(0, 8));
    assert(i128_bytes(v).subrange(0, 8) =~= u64_bytes(hi));
    assert(s.subrange(at + 8, at + 16) =~= i128_bytes(v).subrange(8, 16));
    assert(i128_bytes(v).subrange(8, 16) =~= u64_bytes(lo));
    lemma_u64_roundtrip(hi, s, at);
    lemma_u64_roundtrip(lo, s, at + 8);
}

/// Writing the value read at `at` back to `at` changes nothing.
pub proof fn lemma_i128_bytes_of_read(s: Seq<u8>, at: int)
    requires
        0 <= at,
        at + 16 <= s.len(),
    ensures
        fits_i128(i128_at(s, at)),
        i128_bytes(i128_at(s, at)) == s.subrange(at, at + 16),
{
    let hi = u64_at(s, at);
    let lo = u64_at(s, at + 8);
    let u = hi * half_base() + lo;
    assert(0 <= u < 0x1_0000_0000_0000_0000_0000_0000_0000_0000) by (nonlinear_arith)
        requires
            0 <= hi < half_base(),
            0 <= lo < half_base(),
            u == hi * half_base() + lo,
            half_base() == 0x1_0000_0000_0000_0000,
    ;
    assert(unsigned128(signed128(u)) == u);
    assert(u / half_base() == hi && u % half_base() == lo) by (nonlinear_arith)
        requires
            0 <= lo < half_base(),
            u == hi * half_base() + lo,
            half_base() == 0x1_0000_0000_0000_0000,
    ;
    lemma_u64_bytes_of_read(s, at);
    lemma_u64_bytes_of_read(s, at + 8);
    assert(i128_bytes(i128_at(s, at)) =~= s.subrange(at, at + 16));
}

/// The bytes of `splice16(s, at, bytes)`: those of `bytes` at
/// `at..at + 16` and those of `s` elsewhere.
pub proof fn lemma_splice16(s: Seq<u8>, at: int, bytes: Seq<u8>)
    requires
        0 <= at,
        at + 16 <= s.len(),
        bytes.len() == 16,
    ensures
        splice16(s, at, bytes).len() == s.len(),
        forall|i: int|
            0 <= i < s.len() ==> #[trigger] splice16(s, at, bytes)[i] == if at <= i < at + 16 {
                bytes[i - at]
            } else {
                s[i]
            },
{
}

/// The integer read at `at` after `v` was written there is `v`, and one read
/// at a place that the write did not touch is as before.
pub proof fn lemma_i128_write_read(s: Seq<u8>, at: int, v: int, other: int)
    requires
        0 <= at,
        at + 16 <= s.len(),
        fits_i128(v),
        0 <= other,
        other + 16 <= s.len(),
        other + 16 <= at || at + 16 <= other,
    ensures
        i128_at(splice16(s, at, i128_bytes(v)), at) == v,
        i128_at(splice16(s, at, i128_bytes(v)), other) == i128_at(s, other),
{
    let t = splice16(s, at, i128_bytes(v));
    lemma_splice16(s, at, i128_bytes(v));
    assert(t.subrange(at, at + 16) =~= i128_bytes(v));
    lemma_i128_roundtrip(v, t, at);
    assert(t.subrange(other, other + 16) =~= s.subrange(other, other + 16));
    assert forall|k: int| 0 <= k < 16 implies #[trigger] t[other + k] == s[other + k] by {
        assert(t.subrange(other, other + 16)[k] == s.subrange(other, other + 16)[k]);
    }
}

/// Reads the unsigned integer stored big-endian at `at..at + 8`.
fn read_u64(s: &[u8], at: usize) -> (u: u64)
    requires
        at + 8 <= s@.len(),
    ensures
        u == u64_at(s@, at as int),
{
    let b0 = s[at];
    let b1 = s[at + 1];
    let b2 = s[at + 2];
    let b3 = s[at + 3];
    let b4 = s[at + 4];
    let b5 = s[at + 5];
    let b6 = s[at + 6];
    let b7 = s[at + 7];
    ((b0 as u64) << 56) | ((b1 as u64) << 48) | ((b2 as u64) << 40) | ((b3 as u64) << 32) | ((
    b4 as u64) << 24) | ((b5 as u64) << 16) | ((b6 as u64) << 8) | (b7 as u64)
}

/// Stores `u` big-endian at `at..at + 8`, leaving every other byte as it was.
fn write_u64(s: &mut [u8], at: usize, u: u64)
    requires
        at + 8 <= old(s)@.len(),
    ensures
        final(s)@ == old(s)@.subrange(0, at as int) + u64_bytes(u) + old(s)@.subrange(
            at + 8,
            old(s)@.len() as int,
        ),
{
    let ghost bytes = u64_bytes(u);
    let ghost before = s@;
    s[at] = ((u >> 56u64) & 0xff) as u8;
    s[at + 1] = ((u >> 48u64) & 0xff) as u8;
    s[at + 2] = ((u >> 40u64) & 0xff) as u8;
    s[at + 3] = ((u >> 32u64) & 0xff) as u8;
    s[at + 4] = ((u >> 24u64) & 0xff) as u8;
    s[at + 5] = ((u >> 16u64) & 0xff) as u8;
    s[at + 6] = ((u >> 8u64) & 0xff) as u8;
    s[at + 7] = ((u >> 0u64) & 0xff) as u8;
    assert(s@ =~= before.subrange(0, at as int) + bytes + before.subrange(
        at + 8,
        before.len() as int,
    ));
}

/// Reads the signed integer stored big-endian at `at..at + 16`.
pub fn read_i128(s: &[u8], at: usize) -> (v: i128)
    requires
        at + 16 <= s@.len(),
    ensures
        v == i128_at(s@, at as int),
{
    let len: usize = s.len();
    assert(at + 8 < len);
    let hi = read_u64(s, at);
    let lo = read_u64(s, at + 8);
    let u: u128 = (hi as u128) * 0x1_0000_0000_0000_0000 + (lo as u128);
    if u < 0x8000_0000_0000_0000_0000_0000_0000_0000 {
        u as i128
    } else {
        let low: u128 = u - 0x8000_0000_0000_0000_0000_0000_0000_0000;
        (low as i128) - 0x7fff_ffff_ffff_ffff_ffff_ffff_ffff_ffff - 1
    }
}

/// Stores `v` big-endian at `at..at + 16`, leaving every other byte as it
/// was.
pub fn write_i128(s: &mut [u8], at: usize, v: i128)
    requires
        at + 16 <= old(s)@.len(),
    ensures
        final(s)@ == splice16(old(s)@, at as int, i128_bytes(v as int)),
        i128_at(final(s)@, at as int) == v,
{
    let u: u128 = if v >= 0 {
        v as u128
    } else {
        let shifted: i128 = (v + 0x7fff_ffff_ffff_ffff_ffff_ffff_ffff_ffff) + 1;
        (shifted as u128) + 0x8000_0000_0000_0000_0000_0000_0000_0000
    };
    assert(u == unsigned128(v as int));
    let hi = (u / 0x1_0000_0000_0000_0000) as u64;
    let lo = (u % 0x1_0000_0000_0000_0000) as u64;
    let len: usize = s.len();
    assert(at + 8 < len);
    write_u64(s, at, hi);
    write_u64(s, at + 8, lo);
    assert(s@ =~= splice16(old(s)@, at as int, i128_bytes(v as int)));
    proof {
        assert(s@.subrange(at as int, at + 16) =~= i128_bytes(v as int));
        lemma_i128_roundtrip(v as int, s@, at as int);
    }
}

} // verus!
