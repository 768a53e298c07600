//! CRC-32C, the checksum of headers, region tables and log entries.

use vstd::prelude::*;
use vstd::slice::slice_subrange;

verus! {

/// The CRC-32C (Castagnoli) checksum of `bytes`: polynomial `0x1EDC6F41`,
/// bits reflected on the way in and out, initial value and final XOR
/// `0xFFFFFFFF`.
pub uninterp spec fn crc32c_of(bytes: Seq<u8>) -> u32;

/// `crc::Crc::<u32>::new` with `CRC_32_ISCSI`, `Crc::digest`, three times
/// `Digest::update`, `Digest::finalize`.
///
/// Trusted: a digest that is fed `head`, `middle` and `tail` in turn ends with
/// the checksum of the three runs laid end to end.
#[verifier::external_body]
fn crc32c_chunks(head: &[u8], middle: &[u8], tail: &[u8]) -> (c: u32)
    ensures
        c == crc32c_of(head@ + middle@ + tail@),
{
    let crc = ::crc::Crc::<u32>::new(&::crc::CRC_32_ISCSI);
    let mut digest = crc.digest();
    digest.update(head);
    digest.update(middle);
    digest.update(tail);
    digest.finalize()
}

/// The bytes that a stored checksum is computed over: `b` with the four bytes
/// of the checksum field, at offsets 4 to 7, replaced by zeros.
pub open spec fn with_zeroed_checksum(b: Seq<u8>) -> Seq<u8>
    recommends
        b.len() >= 8,
{
    b.subrange(0, 4) + seq![0u8, 0u8, 0u8, 0u8] + b.subrange(8, b.len() as int)
}

/// Whether `x` and `y` are equally long and differ at most in the four bytes
/// of the checksum field.
pub open spec fn same_but_checksum(x: Seq<u8>, y: Seq<u8>) -> bool {
    &&& x.len() == y.len()
    &&& forall|i: int| 0 <= i < x.len() && !(4 <= i < 8) ==> x[i] == y[i]
}

/// Bytes that differ at most in the checksum field still do so when the same
/// bytes are appended to both.
pub proof fn lemma_same_but_checksum_append(x: Seq<u8>, y: Seq<u8>, tail: Seq<u8>)
    requires
        same_but_checksum(x, y),
    ensures
        same_but_checksum(x + tail, y + tail),
{
}

/// Bytes that differ at most in the checksum field are the same once the
/// field is read as zero, and so have the same checksum.
pub proof fn lemma_same_but_checksum(x: Seq<u8>, y: Seq<u8>)
    requires
        same_but_checksum(x, y),
        x.len() >= 8,
    ensures
        with_zeroed_checksum(x) == with_zeroed_checksum(y),
{
    assert(with_zeroed_checksum(x) =~= with_zeroed_checksum(y));
}

/// The CRC-32C checksum of `bytes`.
pub fn crc32c(bytes: &[u8]) -> (c: u32)
    ensures
        c == crc32c_of(bytes@),
{
    let empty = slice_subrange(bytes, 0, 0);
    assert(bytes@ + empty@ + empty@ =~= bytes@);
    crc32c_chunks(bytes, empty, empty)
}

/// The CRC-32C checksum of `bytes` with the checksum field read as zero.
pub fn crc32c_zeroed(bytes: &[u8]) -> (c: u32)
    requires
        bytes.len() >= 8,
    ensures
        c == crc32c_of(with_zeroed_checksum(bytes@)),
{
    let head = slice_subrange(bytes, 0, 4);
    let tail = slice_subrange(bytes, 8, bytes.len());
    let zeros: [u8; 4] = [0, 0, 0, 0];
    assert(zeros@ =~= seq![0u8, 0u8, 0u8, 0u8]);
    crc32c_chunks(head, zeros.as_slice(), tail)
}

} // verus!
