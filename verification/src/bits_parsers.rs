//! Bit codecs: flags and small fields that do not fill whole bytes. The input
//! is a byte slice together with the number of bits of its first byte that
//! are already used up; bits are counted from the most significant bit of a
//! byte down.

use crate::bat::BatEntryState;
use crate::error::ParseTag;
use crate::error::VhdxParseError;
use vstd::arithmetic::power2::lemma2_to64;
use vstd::arithmetic::power2::lemma2_to64_rest;
use vstd::arithmetic::power2::lemma_pow2_strictly_increases;
use vstd::arithmetic::power2::lemma_pow2_unfold;
use vstd::arithmetic::power2::pow2;
use vstd::prelude::*;
use vstd::slice::slice_subrange;

verus! {

/// The weight of bit `j` of a byte, bit 0 being the most significant one.
pub open spec fn msb_weight(j: int) -> int {
    if j == 0 {
        128
    } else if j == 1 {
        64
    } else if j == 2 {
        32
    } else if j == 3 {
        16
    } else if j == 4 {
        8
    } else if j == 5 {
        4
    } else if j == 6 {
        2
    } else {
        1
    }
}

/// Bit `i` of the bytes `b`, 0 or 1: bit 0 is the most significant bit of the
/// first byte, bit 8 the most significant bit of the second.
pub open spec fn bit_of(b: Seq<u8>, i: int) -> int {
    ((b[i / 8] as int) / msb_weight(i % 8)) % 2
}

/// The number that the `count` bits from bit `start` on spell, the first bit
/// being the most significant.
pub open spec fn bits_value(b: Seq<u8>, start: int, count: int) -> int
    decreases count,
{
    if count <= 0 {
        0
    } else {
        2 * bits_value(b, start, count - 1) + bit_of(b, start + count - 1)
    }
}

/// Whether bit `i` of the bytes `b` is set.
pub open spec fn flag_of(b: Seq<u8>, i: int) -> bool {
    bit_of(b, i) == 1
}

/// Reads bit `i` of the bytes `b`.
fn read_bit(b: &[u8], i: usize) -> (bit: u8)
    requires
        i / 8 < b.len(),
    ensures
        bit == bit_of(b@, i as int),
        bit <= 1,
{
    let weight: u8 = match i % 8 {
        0 => 128,
        1 => 64,
        2 => 32,
        3 => 16,
        4 => 8,
        5 => 4,
        6 => 2,
        _ => 1,
    };
    (b[i / 8] / weight) % 2
}

/// Takes `count` bits off the front of the input and returns them as a
/// number, together with the input that is left. `input.1` is the number of
/// bits of the first byte that are used up already.
pub fn take_bits<'a>(input: (&'a [u8], usize), count: usize) -> (r: Result<
    ((&'a [u8], usize), u64),
    VhdxParseError,
>)
    requires
        input.1 < 8,
        count <= 64,
    ensures
        match r {
            Ok((rest, value)) => {
                &&& input.1 + count <= 8 * input.0@.len()
                &&& value == bits_value(input.0@, input.1 as int, count as int)
                &&& rest.0@ == input.0@.skip((input.1 + count) / 8)
                &&& rest.1 == (input.1 + count) % 8
            },
            Err(e) => input.1 + count > 8 * input.0@.len() && e == (VhdxParseError {
                offset: input.0@.len() as usize,
                tag: ParseTag::Bits,
            }),
        },
{
    let (bytes, used) = input;
    let end = used + count;
    if bytes.len() < (end + 7) / 8 {
        return Err(VhdxParseError { offset: bytes.len(), tag: ParseTag::Bits });
    }
    let mut value: u64 = 0;
    let mut k: usize = 0;
    proof {
        lemma2_to64();
    }
    while k < count
        invariant
            k <= count <= 64,
            used < 8,
            end == used + count,
            (end + 7) / 8 <= bytes.len(),
            value == bits_value(bytes@, used as int, k as int),
            value < pow2(k as nat),
        decreases count - k,
    {
        proof {
            lemma2_to64_rest();
            if k < 63 {
                lemma_pow2_strictly_increases(k as nat, 63);
            }
            lemma_pow2_unfold((k + 1) as nat);
        }
        value = 2 * value + (read_bit(bytes, used + k) as u64);
        k += 1;
    }
    Ok(((slice_subrange(bytes, end / 8, bytes.len()), end % 8), value))
}

/// Takes one bit off the front of the input and reads it as a flag.
pub fn t_flag_u8<'a>(i: (&'a [u8], usize)) -> (r: Result<((&'a [u8], usize), bool), VhdxParseError>)
    requires
        i.1 < 8,
    ensures
        match r {
            Ok((rest, flag)) => {
                &&& i.1 + 1 <= 8 * i.0@.len()
                &&& flag == flag_of(i.0@, i.1 as int)
                &&& rest.0@ == i.0@.skip((i.1 + 1) / 8)
                &&& rest.1 == (i.1 + 1) % 8
            },
            Err(e) => i.1 + 1 > 8 * i.0@.len() && e == (VhdxParseError {
                offset: i.0@.len() as usize,
                tag: ParseTag::Bits,
            }),
        },
{
    assert(bits_value(i.0@, i.1 as int, 1) == bit_of(i.0@, i.1 as int)) by {
        assert(bits_value(i.0@, i.1 as int, 0) == 0);
    }
    match take_bits(i, 1) {
        Ok((rest, value)) => Ok((rest, value > 0)),
        Err(e) => Err(e),
    }
}

/// Takes a byte's worth of bits off the front of the input and returns the
/// flags in its last three bits, the last bit first. In a byte that is read
/// from its start these are bit 0, bit 1 and bit 2 of the byte's value.
pub fn t_3_flags_u32<'a>(input: (&'a [u8], usize)) -> (r: Result<
    ((&'a [u8], usize), (bool, bool, bool)),
    VhdxParseError,
>)
    requires
        input.1 < 8,
    ensures
        match r {
            Ok((rest, flags)) => {
                &&& input.1 + 8 <= 8 * input.0@.len()
                &&& flags.0 == flag_of(input.0@, input.1 + 7)
                &&& flags.1 == flag_of(input.0@, input.1 + 6)
                &&& flags.2 == flag_of(input.0@, input.1 + 5)
                &&& rest.0@ == input.0@.skip(1)
                &&& rest.1 == input.1
            },
            Err(e) => input.1 + 8 > 8 * input.0@.len() && e == (VhdxParseError {
                offset: input.0@.len() as usize,
                tag: ParseTag::Bits,
            }),
        },
{
    let (bytes, used) = input;
    if bytes.len() < (used + 8 + 7) / 8 {
        return Err(VhdxParseError { offset: bytes.len(), tag: ParseTag::Bits });
    }
    let a = read_bit(bytes, used + 5) > 0;
    let b = read_bit(bytes, used + 6) > 0;
    let c = read_bit(bytes, used + 7) > 0;
    Ok(((slice_subrange(bytes, 1, bytes.len()), used), (c, b, a)))
}

/// Takes six bits off the front of the input: four bits that are passed
/// over, then two flags, which are returned the second one first. In a byte
/// that is read from its start the flags are bit 2 and bit 3 of the byte's
/// value, in this order.
pub fn t_2_flags_u32<'a>(input: (&'a [u8], usize)) -> (r: Result<
    ((&'a [u8], usize), (bool, bool)),
    VhdxParseError,
>)
    requires
        input.1 < 8,
    ensures
        match r {
            Ok((rest, flags)) => {
                &&& input.1 + 6 <= 8 * input.0@.len()
                &&& flags.0 == flag_of(input.0@, input.1 + 5)
                &&& flags.1 == flag_of(input.0@, input.1 + 4)
                &&& rest.0@ == input.0@.skip((input.1 + 6) / 8)
                &&& rest.1 == (input.1 + 6) % 8
            },
            Err(e) => input.1 + 6 > 8 * input.0@.len() && e == (VhdxParseError {
                offset: input.0@.len() as usize,
                tag: ParseTag::Bits,
            }),
        },
{
    let (bytes, used) = input;
    let end = used + 6;
    if bytes.len() < (end + 7) / 8 {
        return Err(VhdxParseError { offset: bytes.len(), tag: ParseTag::Bits });
    }
    let b = read_bit(bytes, used + 4) > 0;
    let a = read_bit(bytes, used + 5) > 0;
    Ok(((slice_subrange(bytes, end / 8, bytes.len()), end % 8), (a, b)))
}

/// Takes three bits off the front of the input and reads them as the state
/// of a BAT entry.
pub fn t_state<'a>(i: (&'a [u8], usize)) -> (r: Result<
    ((&'a [u8], usize), BatEntryState),
    VhdxParseError,
>)
    requires
        i.1 < 8,
    ensures
        match r {
            Ok((rest, state)) => {
                &&& i.1 + 3 <= 8 * i.0@.len()
                &&& state == BatEntryState::spec_from_bits(bits_value(i.0@, i.1 as int, 3))
                &&& rest.0@ == i.0@.skip((i.1 + 3) / 8)
                &&& rest.1 == (i.1 + 3) % 8
            },
            Err(e) => i.1 + 3 > 8 * i.0@.len() && e == (VhdxParseError {
                offset: i.0@.len() as usize,
                tag: ParseTag::Bits,
            }),
        },
{
    match take_bits(i, 3) {
        Ok((rest, value)) => {
            assert(value < 8) by {
                reveal_with_fuel(bits_value, 4);
            }
            Ok((rest, BatEntryState::from_bits(value as u8)))
        },
        Err(e) => Err(e),
    }
}

/// Takes `length` reserved bits off the front of the input.
pub fn t_reserved<'a>(i: (&'a [u8], usize), length: usize) -> (r: Result<
    ((&'a [u8], usize), u64),
    VhdxParseError,
>)
    requires
        i.1 < 8,
        length <= 64,
    ensures
        match r {
            Ok((rest, value)) => {
                &&& i.1 + length <= 8 * i.0@.len()
                &&& value == bits_value(i.0@, i.1 as int, length as int)
                &&& rest.0@ == i.0@.skip((i.1 + length) / 8)
                &&& rest.1 == (i.1 + length) % 8
            },
            Err(e) => i.1 + length > 8 * i.0@.len() && e == (VhdxParseError {
                offset: i.0@.len() as usize,
                tag: ParseTag::Bits,
            }),
        },
{
    take_bits(i, length)
}

/// Takes the 44 bits of a file offset off the front of the input.
pub fn t_file_offset<'a>(i: (&'a [u8], usize)) -> (r: Result<
    ((&'a [u8], usize), u64),
    VhdxParseError,
>)
    requires
        i.1 < 8,
    ensures
        match r {
            Ok((rest, value)) => {
                &&& i.1 + 44 <= 8 * i.0@.len()
                &&& value == bits_value(i.0@, i.1 as int, 44)
                &&& rest.0@ == i.0@.skip((i.1 + 44) / 8)
                &&& rest.1 == (i.1 + 44) % 8
            },
            Err(e) => i.1 + 44 > 8 * i.0@.len() && e == (VhdxParseError {
                offset: i.0@.len() as usize,
                tag: ParseTag::Bits,
            }),
        },
{
    take_bits(i, 44)
}

} // verus!
