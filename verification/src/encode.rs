//! Byte encoders, the counterparts of the byte codecs: little-endian
//! integers, runs of zeros and fields of a fixed width, each appended to a
//! buffer.

use crate::parse_utils::le_u16_at;
use crate::parse_utils::le_u32_at;
use crate::parse_utils::le_u64_at;
use vstd::prelude::*;

verus! {

/// The two bytes of `v`, least significant first.
pub open spec fn le_bytes_u16(v: u16) -> Seq<u8> {
    seq![(v % 0x100) as u8, (v / 0x100) as u8]
}

/// The four bytes of `v`, least significant first.
pub open spec fn le_bytes_u32(v: u32) -> Seq<u8> {
    seq![
        (v % 0x100) as u8,
        ((v / 0x100) % 0x100) as u8,
        ((v / 0x1_0000) % 0x100) as u8,
        (v / 0x100_0000) as u8,
    ]
}

/// The eight bytes of `v`, least significant first.
pub open spec fn le_bytes_u64(v: u64) -> Seq<u8> {
    le_bytes_u32((v % 0x1_0000_0000) as u32) + le_bytes_u32((v / 0x1_0000_0000) as u32)
}

/// `n` zero bytes.
pub open spec fn zeros(n: int) -> Seq<u8> {
    Seq::new(
        if n > 0 {
            n as nat
        } else {
            0
        },
        |i: int| 0u8,
    )
}

/// The bytes `s` as a field of `n` bytes: cut off behind `n` bytes, or filled
/// up with zeros.
pub open spec fn fitted(s: Seq<u8>, n: int) -> Seq<u8> {
    Seq::new(
        if n > 0 {
            n as nat
        } else {
            0
        },
        |i: int|
            if i < s.len() {
                s[i]
            } else {
                0u8
            },
    )
}

/// The bytes `s`, filled up with zeros to `n` bytes if they are fewer.
pub open spec fn padded_to(s: Seq<u8>, n: int) -> Seq<u8> {
    s + zeros(n - s.len())
}

/// The bytes `s`, filled up with zeros to the next multiple of 4096 bytes.
pub open spec fn padded_to_4k(s: Seq<u8>) -> Seq<u8> {
    s + zeros((4096 - s.len() % 4096) % 4096)
}

/// The two-byte encoding of `v` decodes to `v`.
pub proof fn lemma_le_u16_round_trip(v: u16)
    ensures
        le_bytes_u16(v).len() == 2,
        le_u16_at(le_bytes_u16(v), 0) == v,
{
}

/// The four-byte encoding of `v` decodes to `v`.
pub proof fn lemma_le_u32_round_trip(v: u32)
    ensures
        le_bytes_u32(v).len() == 4,
        le_u32_at(le_bytes_u32(v), 0) == v,
{
}

/// The eight-byte encoding of `v` decodes to `v`.
pub proof fn lemma_le_u64_round_trip(v: u64)
    ensures
        le_bytes_u64(v).len() == 8,
        le_u64_at(le_bytes_u64(v), 0) == v,
{
    lemma_le_u32_round_trip((v % 0x1_0000_0000) as u32);
    lemma_le_u32_round_trip((v / 0x1_0000_0000) as u32);
}

/// Appends four bytes.
pub fn put4(out: &mut Vec<u8>, b0: u8, b1: u8, b2: u8, b3: u8)
    ensures
        final(out)@ == old(out)@ + seq![b0, b1, b2, b3],
{
    let ghost start = out@;
    out.push(b0);
    out.push(b1);
    out.push(b2);
    out.push(b3);
    assert(out@ =~= start + seq![b0, b1, b2, b3]);
}

/// Appends `v` as two bytes, least significant first.
pub fn put_u16(out: &mut Vec<u8>, v: u16)
    ensures
        final(out)@ == old(out)@ + le_bytes_u16(v),
{
    let ghost start = out@;
    out.push((v % 0x100) as u8);
    out.push((v / 0x100) as u8);
    assert(out@ =~= start + le_bytes_u16(v));
}

/// Appends `v` as four bytes, least significant first.
pub fn put_u32(out: &mut Vec<u8>, v: u32)
    ensures
        final(out)@ == old(out)@ + le_bytes_u32(v),
{
    let ghost start = out@;
    out.push((v % 0x100) as u8);
    out.push(((v / 0x100) % 0x100) as u8);
    out.push(((v / 0x1_0000) % 0x100) as u8);
    out.push((v / 0x100_0000) as u8);
    assert(out@ =~= start + le_bytes_u32(v));
}

/// Appends `v` as eight bytes, least significant first.
pub fn put_u64(out: &mut Vec<u8>, v: u64)
    ensures
        final(out)@ == old(out)@ + le_bytes_u64(v),
{
    let ghost start = out@;
    put_u32(out, (v % 0x1_0000_0000) as u32);
    put_u32(out, (v / 0x1_0000_0000) as u32);
    assert(out@ =~= start + le_bytes_u64(v));
}

/// Appends `n` zero bytes.
pub fn put_zeros(out: &mut Vec<u8>, n: usize)
    ensures
        final(out)@ == old(out)@ + zeros(n as int),
{
    let ghost start = out@;
    let mut i: usize = 0;
    while i < n
        invariant
            i <= n,
            out@ == start + zeros(i as int),
        decreases n - i,
    {
        out.push(0);
        assert(out@ =~= start + zeros(i + 1));
        i += 1;
    }
    assert(out@ =~= start + zeros(n as int));
}

/// Appends `bytes`.
pub fn put_bytes(out: &mut Vec<u8>, bytes: &[u8])
    ensures
        final(out)@ == old(out)@ + bytes@,
{
    let ghost start = out@;
    let n = bytes.len();
    let mut i: usize = 0;
    while i < n
        invariant
            i <= n,
            n == bytes@.len(),
            out@ == start + bytes@.take(i as int),
        decreases n - i,
    {
        out.push(bytes[i]);
        assert(out@ =~= start + bytes@.take(i + 1));
        i += 1;
    }
    assert(bytes@.take(n as int) =~= bytes@);
}

/// Appends `bytes` as a field of `n` bytes: cut off behind `n` bytes, or
/// filled up with zeros.
pub fn put_fitted(out: &mut Vec<u8>, bytes: &[u8], n: usize)
    ensures
        final(out)@ == old(out)@ + fitted(bytes@, n as int),
{
    let ghost start = out@;
    let len = bytes.len();
    let mut i: usize = 0;
    while i < n
        invariant
            i <= n,
            len == bytes@.len(),
            out@ == start + fitted(bytes@, i as int),
        decreases n - i,
    {
        out.push(
            if i < len {
                bytes[i]
            } else {
                0
            },
        );
        assert(out@ =~= start + fitted(bytes@, i + 1));
        i += 1;
    }
}

/// Fills `out` up with zeros to `n` bytes, if it holds fewer.
pub fn pad_to(out: &mut Vec<u8>, n: usize)
    ensures
        final(out)@ == padded_to(old(out)@, n as int),
{
    let len = out.len();
    if len < n {
        put_zeros(out, n - len);
    } else {
        assert(out@ + zeros(n - len) =~= out@);
    }
}

/// Fills `out` up with zeros to the next multiple of 4096 bytes.
pub fn pad_to_4k(out: &mut Vec<u8>)
    ensures
        final(out)@ == padded_to_4k(old(out)@),
        final(out)@.len() % 4096 == 0,
        final(out)@.len() >= old(out)@.len(),
{
    let pad = (4096 - out.len() % 4096) % 4096;
    put_zeros(out, pad);
}

} // verus!
