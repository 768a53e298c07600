//! Byte codecs: little-endian integers, GUIDs, signatures and the creator
//! string. Each takes a byte slice and returns what is left of it together
//! with the decoded value.

use crate::error::ParseTag;
use crate::error::VhdxParseError;
use crate::guid::guid_of_bytes_le;
use crate::guid::Guid;
use crate::signatures::classify_sign_u32;
use crate::signatures::classify_sign_u64;
use crate::signatures::sign_u32_of;
use crate::signatures::sign_u64_of;
use crate::signatures::Signature;
use vstd::pervasive::unreached;
use vstd::prelude::*;
use vstd::slice::slice_subrange;

verus! {

/// The little-endian 16-bit integer at `b[i..i + 2]`.
pub open spec fn le_u16_at(b: Seq<u8>, i: int) -> int {
    b[i] + b[i + 1] * 0x100
}

/// The little-endian 32-bit integer at `b[i..i + 4]`.
pub open spec fn le_u32_at(b: Seq<u8>, i: int) -> int {
    b[i] + b[i + 1] * 0x100 + b[i + 2] * 0x1_0000 + b[i + 3] * 0x100_0000
}

/// The little-endian 64-bit integer at `b[i..i + 8]`.
pub open spec fn le_u64_at(b: Seq<u8>, i: int) -> int {
    le_u32_at(b, i) + le_u32_at(b, i + 4) * 0x1_0000_0000
}

/// The GUID at `b[i..i + 16]`.
pub open spec fn guid_at(b: Seq<u8>, i: int) -> int {
    guid_of_bytes_le(b.subrange(i, i + 16))
}

/// Reads the little-endian 16-bit integer at `at`.
pub fn read_u16(b: &[u8], at: usize) -> (v: u16)
    requires
        at + 2 <= b.len(),
    ensures
        v == le_u16_at(b@, at as int),
{
    (b[at] as u16) + (b[at + 1] as u16) * 0x100
}

/// Reads the little-endian 32-bit integer at `at`.
pub fn read_u32(b: &[u8], at: usize) -> (v: u32)
    requires
        at + 4 <= b.len(),
    ensures
        v == le_u32_at(b@, at as int),
{
    (b[at] as u32) + (b[at + 1] as u32) * 0x100 + (b[at + 2] as u32) * 0x1_0000 + (b[at
        + 3] as u32) * 0x100_0000
}

/// Reads the little-endian 64-bit integer at `at`.
pub fn read_u64(b: &[u8], at: usize) -> (v: u64)
    requires
        at + 8 <= b.len(),
    ensures
        v == le_u64_at(b@, at as int),
{
    (read_u32(b, at) as u64) + (read_u32(b, at + 4) as u64) * 0x1_0000_0000
}

/// Reads the GUID at `at`.
pub fn read_guid(b: &[u8], at: usize) -> (g: Guid)
    requires
        at + 16 <= b.len(),
    ensures
        g.value == guid_at(b@, at as int),
{
    match Guid::from_bytes_le(slice_subrange(b, at, at + 16)) {
        Some(g) => g,
        None => unreached(),
    }
}

/// The signature that the four bytes `b[i..i + 4]` spell.
pub open spec fn sign_u32_at(b: Seq<u8>, i: int) -> Signature {
    sign_u32_of(b.subrange(i, i + 4))
}

/// Reads the four-byte signature at `at`.
pub fn read_sign_u32(b: &[u8], at: usize) -> (s: Signature)
    requires
        at + 4 <= b.len(),
    ensures
        s == sign_u32_at(b@, at as int),
{
    classify_sign_u32(slice_subrange(b, at, at + 4))
}

/// The first failure that `f` reports for an index from `lo` up to, and not
/// including, `hi`.
pub open spec fn first_failure<E>(f: spec_fn(int) -> Option<E>, lo: int, hi: int) -> Option<E>
    decreases hi - lo,
{
    if lo >= hi {
        None
    } else if f(lo) is Some {
        f(lo)
    } else {
        first_failure(f, lo + 1, hi)
    }
}

/// Where there is no first failure, no index fails.
pub proof fn lemma_no_failure<E>(f: spec_fn(int) -> Option<E>, lo: int, hi: int, k: int)
    requires
        first_failure(f, lo, hi) is None,
        lo <= k < hi,
    ensures
        f(k) is None,
    decreases hi - lo,
{
    if lo < k {
        lemma_no_failure(f, lo + 1, hi, k);
    }
}

/// `x` rounded up to a multiple of 4096.
pub open spec fn round_up_4k(x: int) -> int {
    ((x + 4095) / 4096) * 4096
}

/// What a codec reports about an input of `len` bytes that is too short.
pub open spec fn short_input(len: nat, tag: ParseTag) -> VhdxParseError {
    VhdxParseError { offset: len as usize, tag }
}

/// Takes an 8-byte signature off the front of `buffer`. Bytes that spell none
/// of the known signatures give `Signature::Unknown`, not an error.
pub fn t_sign_u64(buffer: &[u8]) -> (r: Result<(&[u8], Signature), VhdxParseError>)
    ensures
        match r {
            Ok((rest, s)) => buffer@.len() >= 8 && rest@ == buffer@.skip(8) && s == sign_u64_of(buffer@),
            Err(e) => buffer@.len() < 8 && e == short_input(buffer@.len(), ParseTag::Sign8),
        },
{
    if buffer.len() < 8 {
        return Err(VhdxParseError { offset: buffer.len(), tag: ParseTag::Sign8 });
    }
    Ok((slice_subrange(buffer, 8, buffer.len()), classify_sign_u64(buffer)))
}

/// Takes a 4-byte signature off the front of `buffer`. Bytes that spell none
/// of the known signatures give `Signature::Unknown`, not an error.
pub fn t_sign_u32(buffer: &[u8]) -> (r: Result<(&[u8], Signature), VhdxParseError>)
    ensures
        match r {
            Ok((rest, s)) => buffer@.len() >= 4 && rest@ == buffer@.skip(4) && s == sign_u32_of(buffer@),
            Err(e) => buffer@.len() < 4 && e == short_input(buffer@.len(), ParseTag::Sign4),
        },
{
    if buffer.len() < 4 {
        return Err(VhdxParseError { offset: buffer.len(), tag: ParseTag::Sign4 });
    }
    Ok((slice_subrange(buffer, 4, buffer.len()), classify_sign_u32(buffer)))
}

/// Takes a GUID off the front of `buffer`.
pub fn t_guid(buffer: &[u8]) -> (r: Result<(&[u8], Guid), VhdxParseError>)
    ensures
        match r {
            Ok((rest, g)) => buffer@.len() >= 16 && rest@ == buffer@.skip(16) && g.value == guid_at(buffer@, 0),
            Err(e) => buffer@.len() < 16 && e == short_input(buffer@.len(), ParseTag::Guid),
        },
{
    if buffer.len() < 16 {
        return Err(VhdxParseError { offset: buffer.len(), tag: ParseTag::Guid });
    }
    Ok((slice_subrange(buffer, 16, buffer.len()), read_guid(buffer, 0)))
}

/// Takes a little-endian 32-bit integer off the front of `buffer`.
pub fn t_u32(buffer: &[u8]) -> (r: Result<(&[u8], u32), VhdxParseError>)
    ensures
        match r {
            Ok((rest, v)) => buffer@.len() >= 4 && rest@ == buffer@.skip(4) && v == le_u32_at(buffer@, 0),
            Err(e) => buffer@.len() < 4 && e == short_input(buffer@.len(), ParseTag::U32),
        },
{
    if buffer.len() < 4 {
        return Err(VhdxParseError { offset: buffer.len(), tag: ParseTag::U32 });
    }
    Ok((slice_subrange(buffer, 4, buffer.len()), read_u32(buffer, 0)))
}

/// Takes a little-endian 64-bit integer off the front of `buffer`.
pub fn t_u64(buffer: &[u8]) -> (r: Result<(&[u8], u64), VhdxParseError>)
    ensures
        match r {
            Ok((rest, v)) => buffer@.len() >= 8 && rest@ == buffer@.skip(8) && v == le_u64_at(buffer@, 0),
            Err(e) => buffer@.len() < 8 && e == short_input(buffer@.len(), ParseTag::U64),
        },
{
    if buffer.len() < 8 {
        return Err(VhdxParseError { offset: buffer.len(), tag: ParseTag::U64 });
    }
    Ok((slice_subrange(buffer, 8, buffer.len()), read_u64(buffer, 0)))
}

/// Takes a little-endian 32-bit integer off the front of `buffer` and reads it
/// as a flag: set when the integer is not zero.
pub fn t_bool_u32(buffer: &[u8]) -> (r: Result<(&[u8], bool), VhdxParseError>)
    ensures
        match r {
            Ok((rest, v)) => buffer@.len() >= 4 && rest@ == buffer@.skip(4) && v == ( le_u32_at(buffer@, 0) > 0),
            Err(e) => buffer@.len() < 4 && e == short_input(buffer@.len(), ParseTag::U32),
        },
{
    if buffer.len() < 4 {
        return Err(VhdxParseError { offset: buffer.len(), tag: ParseTag::U32 });
    }
    Ok((slice_subrange(buffer, 4, buffer.len()), read_u32(buffer, 0) > 0))
}

/// Takes a little-endian 16-bit integer off the front of `buffer`.
pub fn t_u16(buffer: &[u8]) -> (r: Result<(&[u8], u16), VhdxParseError>)
    ensures
        match r {
            Ok((rest, v)) => buffer@.len() >= 2 && rest@ == buffer@.skip(2) && v == le_u16_at(buffer@, 0),
            Err(e) => buffer@.len() < 2 && e == short_input(buffer@.len(), ParseTag::U16),
        },
{
    if buffer.len() < 2 {
        return Err(VhdxParseError { offset: buffer.len(), tag: ParseTag::U16 });
    }
    Ok((slice_subrange(buffer, 2, buffer.len()), read_u16(buffer, 0)))
}

/// The text that a run of UTF-16 code units spells, or `None` where the run
/// is not well formed (a surrogate without its partner).
pub uninterp spec fn utf16_decoded(units: Seq<u16>) -> Option<Seq<char>>;

/// `String::from_utf16`.
///
/// Trusted: the call succeeds exactly on well-formed UTF-16, and the string
/// it returns is the text that the code units spell.
#[verifier::external_body]
fn string_from_utf16(units: &[u16]) -> (r: Option<String>)
    ensures
        match r {
            Some(s) => utf16_decoded(units@) == Some(s@),
            None => utf16_decoded(units@) is None,
        },
{
    match String::from_utf16(units) {
        Ok(s) => Some(s),
        Err(_) => None,
    }
}

/// The 256 little-endian code units that the first 512 bytes of `b` hold.
pub open spec fn creator_units(b: Seq<u8>) -> Seq<u16>
    recommends
        b.len() >= 512,
{
    Seq::new(256, |k: int| le_u16_at(b, 2 * k) as u16)
}

/// The length of `u` without its trailing null code units.
pub open spec fn trimmed_len(u: Seq<u16>) -> nat
    decreases u.len(),
{
    if u.len() > 0 && u.last() == 0 {
        trimmed_len(u.drop_last())
    } else {
        u.len()
    }
}

/// `u` without its trailing null code units.
pub open spec fn trim_nulls(u: Seq<u16>) -> Seq<u16> {
    u.take(trimmed_len(u) as int)
}

/// The creator text that the first 512 bytes of `b` hold, if they hold one.
pub open spec fn creator_of(b: Seq<u8>) -> Option<Seq<char>>
    recommends
        b.len() >= 512,
{
    utf16_decoded(trim_nulls(creator_units(b)))
}

/// Takes the creator string off the front of `buffer`: 256 UTF-16 code units
/// in little-endian order, without the null code units at their end. Code
/// units that are not well-formed UTF-16 are an error at offset zero.
pub fn t_creator(buffer: &[u8]) -> (r: Result<(&[u8], String), VhdxParseError>)
    ensures
        match r {
            Ok((rest, s)) => buffer@.len() >= 512 && rest@ == buffer@.skip(512) && creator_of(
                buffer@,
            ) == Some(s@),
            Err(e) => if buffer@.len() < 512 {
                e == short_input(buffer@.len(), ParseTag::Creator)
            } else {
                creator_of(buffer@) is None && e == (VhdxParseError {
                    offset: 0,
                    tag: ParseTag::Creator,
                })
            },
        },
{
    if buffer.len() < 512 {
        return Err(VhdxParseError { offset: buffer.len(), tag: ParseTag::Creator });
    }
    let mut units: Vec<u16> = Vec::new();
    let mut k: usize = 0;
    while k < 256
        invariant
            k <= 256,
            buffer@.len() >= 512,
            units@.len() == k,
            forall|j: int| 0 <= j < k ==> units@[j] == le_u16_at(buffer@, 2 * j) as u16,
        decreases 256 - k,
    {
        units.push(read_u16(buffer, 2 * k));
        k += 1;
    }
    assert(units@ =~= creator_units(buffer@));
    let mut n: usize = 256;
    assert(units@.take(256) =~= units@);
    while n > 0 && units[n - 1] == 0
        invariant
            n <= 256,
            units@.len() == 256,
            trimmed_len(units@) == trimmed_len(units@.take(n as int)),
        decreases n,
    {
        assert(units@.take(n as int).drop_last() =~= units@.take(n - 1));
        n -= 1;
    }
    assert(trimmed_len(units@.take(n as int)) == n);
    let trimmed = slice_subrange(units.as_slice(), 0, n);
    assert(trimmed@ =~= trim_nulls(units@));
    match string_from_utf16(trimmed) {
        Some(s) => Ok((slice_subrange(buffer, 512, buffer.len()), s)),
        None => Err(VhdxParseError { offset: 0, tag: ParseTag::Creator }),
    }
}

} // verus!
