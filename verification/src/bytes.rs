//! Little-endian integers and other byte-level helpers of the storage format.
use vstd::prelude::*;

verus! {

/// The byte that stores an `i8` (`v as u8`).
pub open spec fn i8_to_byte(v: i8) -> u8 {
    if v < 0 {
        (v + 256) as u8
    } else {
        v as u8
    }
}

/// The `i8` that a byte stores (`b as i8`).
pub open spec fn byte_to_i8(b: u8) -> i8 {
    if b >= 128 {
        (b - 256) as i8
    } else {
        b as i8
    }
}

pub fn byte_of_i8(v: i8) -> (r: u8)
    ensures
        r == i8_to_byte(v),
{
    if v < 0 {
        (v as i16 + 256) as u8
    } else {
        v as u8
    }
}

pub fn i8_of_byte(b: u8) -> (r: i8)
    ensures
        r == byte_to_i8(b),
{
    if b >= 128 {
        (b as i16 - 256) as i8
    } else {
        b as i8
    }
}

pub proof fn lemma_i8_byte_roundtrip(v: i8)
    ensures
        byte_to_i8(i8_to_byte(v)) == v,
{
}

/// `i32::to_le_bytes`.
pub open spec fn i32_le(v: i32) -> Seq<u8> {
    let u = v as u32;
    seq![u as u8, (u >> 8u32) as u8, (u >> 16u32) as u8, (u >> 24u32) as u8]
}

/// `i32::from_le_bytes` of four bytes.
pub open spec fn i32_from_le4(b0: u8, b1: u8, b2: u8, b3: u8) -> i32 {
    ((b0 as u32) | ((b1 as u32) << 8u32) | ((b2 as u32) << 16u32) | ((b3 as u32) << 24u32)) as i32
}

/// `i32::from_le_bytes` of the first four bytes of `b`.
pub open spec fn i32_from_le(b: Seq<u8>) -> i32 {
    i32_from_le4(b[0], b[1], b[2], b[3])
}

pub fn i32_to_le_bytes(v: i32) -> (r: [u8; 4])
    ensures
        r@ == i32_le(v),
{
    let u = v as u32;
    let r = [u as u8, (u >> 8u32) as u8, (u >> 16u32) as u8, (u >> 24u32) as u8];
    assert(r@ =~= i32_le(v));
    r
}

pub fn i32_of_le_bytes(b0: u8, b1: u8, b2: u8, b3: u8) -> (r: i32)
    ensures
        r == i32_from_le4(b0, b1, b2, b3),
{
    ((b0 as u32) | ((b1 as u32) << 8u32) | ((b2 as u32) << 16u32) | ((b3 as u32) << 24u32)) as i32
}

pub proof fn lemma_i32_le_roundtrip(v: i32)
    ensures
        i32_le(v).len() == 4,
        i32_from_le(i32_le(v)) == v,
{
    let u = v as u32;
    assert(i32_from_le4(u as u8, (u >> 8u32) as u8, (u >> 16u32) as u8, (u >> 24u32) as u8) == v)
        by (bit_vector)
        requires
            u == v as u32,
    ;
}

/// The little-endian `u16` stored at `at` and `at + 1`.
pub open spec fn le16(d: Seq<u8>, at: int) -> int {
    d[at] as int + 256 * (d[at + 1] as int)
}

/// `d` with the little-endian `u16` `v` written at `at`.
pub open spec fn put16(d: Seq<u8>, at: int, v: int) -> Seq<u8> {
    d.update(at, (v % 256) as u8).update(at + 1, (v / 256) as u8)
}

pub proof fn lemma_put16(d: Seq<u8>, at: int, v: int)
    requires
        0 <= at,
        at + 1 < d.len(),
        0 <= v < 0x10000,
    ensures
        put16(d, at, v).len() == d.len(),
        le16(put16(d, at, v), at) == v,
        forall|k: int| 0 <= k < d.len() && k != at && k != at + 1 ==> put16(d, at, v)[k] == d[k],
{
}

/// Reads the little-endian `u16` at `at`.
pub fn read16(d: &[u8; 4096], at: usize) -> (r: u16)
    requires
        at + 1 < 4096,
    ensures
        r == le16(d@, at as int),
{
    d[at] as u16 + (d[at + 1] as u16) * 256
}

/// Writes the little-endian `u16` `v` at `at`.
pub fn write16(d: &mut [u8; 4096], at: usize, v: u16)
    requires
        at + 1 < 4096,
    ensures
        final(d)@ == put16(old(d)@, at as int, v as int),
{
    d[at] = (v % 256) as u8;
    d[at + 1] = (v / 256) as u8;
}

/// Appends the bytes of `s` to `v`.
pub fn push_all(v: &mut Vec<u8>, s: &[u8])
    ensures
        final(v)@ == old(v)@ + s@,
{
    let n = s.len();
    let mut i: usize = 0;
    let ghost start = v@;
    while i < n
        invariant
            n == s@.len(),
            i <= n,
            v@ == start + s@.take(i as int),
        decreases n - i,
    {
        v.push(s[i]);
        i += 1;
        assert(s@.take(i as int) =~= s@.take(i - 1).push(s@[i - 1]));
    }
    assert(s@.take(n as int) =~= s@);
}

} // verus!
