//! GUIDs in Microsoft's mixed-endian on-disk layout.

use vstd::prelude::*;

verus! {

/// A 128-bit identifier. `value` reads as the usual text form does: the GUID
/// `2DC27766-F623-4200-9D64-115E9BFD4A08` has the value
/// `0x2DC27766_F623_4200_9D64_115E9BFD4A08`.
#[derive(Debug, Eq, PartialEq, Copy, Clone, Hash, Structural)]
pub struct Guid {
    pub value: u128,
}

/// The on-disk bytes with the three leading fields turned around: the
/// 32-bit field and the two 16-bit fields are little-endian on disk, the last
/// eight bytes stand as they are.
pub open spec fn swap_fields(b: Seq<u8>) -> Seq<u8>
    recommends
        b.len() == 16,
{
    seq![
        b[3], b[2], b[1], b[0],
        b[5], b[4],
        b[7], b[6],
        b[8], b[9], b[10], b[11], b[12], b[13], b[14], b[15],
    ]
}

/// The big-endian value of sixteen bytes.
pub open spec fn be_u128(s: Seq<u8>) -> int
    recommends
        s.len() == 16,
{
    s[0] * 0x1_00_0000_0000_0000_0000_0000_0000_0000
    + s[1] * 0x1_0000_0000_0000_0000_0000_0000_0000
    + s[2] * 0x1_00_0000_0000_0000_0000_0000_0000
    + s[3] * 0x1_0000_0000_0000_0000_0000_0000
    + s[4] * 0x1_00_0000_0000_0000_0000_0000
    + s[5] * 0x1_0000_0000_0000_0000_0000
    + s[6] * 0x1_00_0000_0000_0000_0000
    + s[7] * 0x1_0000_0000_0000_0000
    + s[8] * 0x1_00_0000_0000_0000
    + s[9] * 0x1_0000_0000_0000
    + s[10] * 0x1_00_0000_0000
    + s[11] * 0x1_0000_0000
    + s[12] * 0x1_00_0000
    + s[13] * 0x1_0000
    + s[14] * 0x1_00
    + s[15]
}

/// The sixteen bytes of `v`, most significant first.
pub open spec fn be_bytes_u128(v: u128) -> Seq<u8> {
    seq![
        ((v / 0x1_00_0000_0000_0000_0000_0000_0000_0000) % 0x100) as u8,
        ((v / 0x1_0000_0000_0000_0000_0000_0000_0000) % 0x100) as u8,
        ((v / 0x1_00_0000_0000_0000_0000_0000_0000) % 0x100) as u8,
        ((v / 0x1_0000_0000_0000_0000_0000_0000) % 0x100) as u8,
        ((v / 0x1_00_0000_0000_0000_0000_0000) % 0x100) as u8,
        ((v / 0x1_0000_0000_0000_0000_0000) % 0x100) as u8,
        ((v / 0x1_00_0000_0000_0000_0000) % 0x100) as u8,
        ((v / 0x1_0000_0000_0000_0000) % 0x100) as u8,
        ((v / 0x1_00_0000_0000_0000) % 0x100) as u8,
        ((v / 0x1_0000_0000_0000) % 0x100) as u8,
        ((v / 0x1_00_0000_0000) % 0x100) as u8,
        ((v / 0x1_0000_0000) % 0x100) as u8,
        ((v / 0x1_00_0000) % 0x100) as u8,
        ((v / 0x1_0000) % 0x100) as u8,
        ((v / 0x1_00) % 0x100) as u8,
        (v % 0x100) as u8,
    ]
}

/// The identifier that sixteen on-disk bytes hold.
pub open spec fn guid_of_bytes_le(b: Seq<u8>) -> int
    recommends
        b.len() == 16,
{
    be_u128(swap_fields(b))
}

/// The sixteen on-disk bytes of the identifier `v`.
pub open spec fn guid_bytes_le(v: u128) -> Seq<u8> {
    swap_fields(be_bytes_u128(v))
}

/// Sixteen bytes hold a value below 2^128.
pub proof fn lemma_be_u128_bounds(s: Seq<u8>)
    requires
        s.len() == 16,
    ensures
        0 <= be_u128(s) <= u128::MAX,
{
}

proof fn lemma_pack_unpack(v: u128, b0: u8, b1: u8, b2: u8, b3: u8, b4: u8, b5: u8, b6: u8, b7: u8, b8: u8, b9: u8, b10: u8, b11: u8, b12: u8, b13: u8, b14: u8, b15: u8)
    by (bit_vector)
    requires
        v == (b0 as u128) * 0x1000000000000000000000000000000 + (b1 as u128) * 0x10000000000000000000000000000 + (b2 as u128) * 0x100000000000000000000000000 + (b3 as u128) * 0x1000000000000000000000000 + (b4 as u128) * 0x10000000000000000000000 + (b5 as u128) * 0x100000000000000000000 + (b6 as u128) * 0x1000000000000000000 + (b7 as u128) * 0x10000000000000000 + (b8 as u128) * 0x100000000000000 + (b9 as u128) * 0x1000000000000 + (b10 as u128) * 0x10000000000 + (b11 as u128) * 0x100000000 + (b12 as u128) * 0x1000000 + (b13 as u128) * 0x10000 + (b14 as u128) * 0x100 + (b15 as u128),
    ensures
        (v / 0x1000000000000000000000000000000) % 0x100 == b0 as u128,
        (v / 0x10000000000000000000000000000) % 0x100 == b1 as u128,
        (v / 0x100000000000000000000000000) % 0x100 == b2 as u128,
        (v / 0x1000000000000000000000000) % 0x100 == b3 as u128,
        (v / 0x10000000000000000000000) % 0x100 == b4 as u128,
        (v / 0x100000000000000000000) % 0x100 == b5 as u128,
        (v / 0x1000000000000000000) % 0x100 == b6 as u128,
        (v / 0x10000000000000000) % 0x100 == b7 as u128,
        (v / 0x100000000000000) % 0x100 == b8 as u128,
        (v / 0x1000000000000) % 0x100 == b9 as u128,
        (v / 0x10000000000) % 0x100 == b10 as u128,
        (v / 0x100000000) % 0x100 == b11 as u128,
        (v / 0x1000000) % 0x100 == b12 as u128,
        (v / 0x10000) % 0x100 == b13 as u128,
        (v / 0x100) % 0x100 == b14 as u128,
        v % 0x100 == b15 as u128,
{
}

/// Packing sixteen bytes into a value and splitting the value again gives the
/// sixteen bytes.
pub proof fn lemma_be_u128_round_trip(s: Seq<u8>)
    requires
        s.len() == 16,
    ensures
        be_bytes_u128(be_u128(s) as u128) == s,
{
    lemma_be_u128_bounds(s);
    let v = be_u128(s) as u128;
    lemma_pack_unpack(v, s[0], s[1], s[2], s[3], s[4], s[5], s[6], s[7], s[8], s[9], s[10], s[11], s[12], s[13], s[14], s[15]);
    assert(be_bytes_u128(v) =~= s);
}

proof fn lemma_unpack_pack(v: u128)
    by (bit_vector)
    ensures
        v == ((v / 0x1_00_0000_0000_0000_0000_0000_0000_0000) % 0x100)
            * 0x1_00_0000_0000_0000_0000_0000_0000_0000 + ((v
            / 0x1_0000_0000_0000_0000_0000_0000_0000) % 0x100)
            * 0x1_0000_0000_0000_0000_0000_0000_0000 + ((v / 0x1_00_0000_0000_0000_0000_0000_0000)
            % 0x100) * 0x1_00_0000_0000_0000_0000_0000_0000 + ((v
            / 0x1_0000_0000_0000_0000_0000_0000) % 0x100) * 0x1_0000_0000_0000_0000_0000_0000 + ((v
            / 0x1_00_0000_0000_0000_0000_0000) % 0x100) * 0x1_00_0000_0000_0000_0000_0000 + ((v
            / 0x1_0000_0000_0000_0000_0000) % 0x100) * 0x1_0000_0000_0000_0000_0000 + ((v
            / 0x1_00_0000_0000_0000_0000) % 0x100) * 0x1_00_0000_0000_0000_0000 + ((v
            / 0x1_0000_0000_0000_0000) % 0x100) * 0x1_0000_0000_0000_0000 + ((v
            / 0x1_00_0000_0000_0000) % 0x100) * 0x1_00_0000_0000_0000 + ((v / 0x1_0000_0000_0000)
            % 0x100) * 0x1_0000_0000_0000 + ((v / 0x1_00_0000_0000) % 0x100) * 0x1_00_0000_0000 + ((v
            / 0x1_0000_0000) % 0x100) * 0x1_0000_0000 + ((v / 0x1_00_0000) % 0x100) * 0x1_00_0000
            + ((v / 0x1_0000) % 0x100) * 0x1_0000 + ((v / 0x1_00) % 0x100) * 0x1_00 + (v % 0x100),
{
}

/// Encoding an identifier as sixteen on-disk bytes and decoding them again
/// gives the identifier.
pub proof fn lemma_guid_value_round_trip(v: u128)
    ensures
        guid_bytes_le(v).len() == 16,
        guid_of_bytes_le(guid_bytes_le(v)) == v,
{
    lemma_unpack_pack(v);
    assert(swap_fields(guid_bytes_le(v)) =~= be_bytes_u128(v));
}

/// Decoding sixteen on-disk bytes and encoding the identifier again gives the
/// same sixteen bytes.
pub proof fn lemma_guid_round_trip(b: Seq<u8>)
    requires
        b.len() == 16,
    ensures
        0 <= guid_of_bytes_le(b) <= u128::MAX,
        guid_bytes_le(guid_of_bytes_le(b) as u128) == b,
{
    let s = swap_fields(b);
    lemma_be_u128_bounds(s);
    lemma_be_u128_round_trip(s);
    assert(swap_fields(s) =~= b);
}

/// The error of the `uuid` crate.
#[verifier::external_type_specification]
#[verifier::external_body]
pub struct ExUuidError(uuid::Error);

/// `uuid::Builder::from_slice_le`, then `Builder::into_uuid` and `Uuid::as_u128`.
///
/// Trusted: the call fails exactly when the slice is not sixteen bytes long;
/// otherwise the three leading fields are turned around and the sixteen bytes
/// are read as one big-endian number.
#[verifier::external_body]
fn uuid_from_slice_le(bytes: &[u8]) -> (r: Result<u128, uuid::Error>)
    ensures
        r is Ok <==> bytes@.len() == 16,
        r matches Ok(v) ==> v == guid_of_bytes_le(bytes@),
{
    match uuid::Builder::from_slice_le(bytes) {
        Ok(builder) => Ok(builder.into_uuid().as_u128()),
        Err(e) => Err(e),
    }
}

/// `uuid::Uuid::from_u128`, then `Uuid::to_bytes_le`.
///
/// Trusted: the result is the sixteen big-endian bytes of `value` with the
/// three leading fields turned around.
#[verifier::external_body]
fn uuid_to_bytes_le(value: u128) -> (r: Vec<u8>)
    ensures
        r@ == guid_bytes_le(value),
{
    uuid::Uuid::from_u128(value).to_bytes_le().to_vec()
}

impl Guid {
    /// The GUID whose sixteen bytes are zero.
    pub open spec fn spec_is_nil(self) -> bool {
        self.value == 0
    }

    /// Whether every byte of the GUID is zero.
    pub fn is_nil(&self) -> (r: bool)
        ensures
            r == self.spec_is_nil(),
    {
        self.value == 0
    }

    /// Decodes the GUID that `bytes` hold in the on-disk layout. `None` unless
    /// there are exactly sixteen bytes.
    pub fn from_bytes_le(bytes: &[u8]) -> (r: Option<Guid>)
        ensures
            r is Some <==> bytes@.len() == 16,
            r matches Some(g) ==> g.value == guid_of_bytes_le(bytes@),
    {
        match uuid_from_slice_le(bytes) {
            Ok(value) => Some(Guid { value }),
            Err(_) => None,
        }
    }

    /// The sixteen on-disk bytes of the GUID.
    pub fn to_bytes_le(&self) -> (r: Vec<u8>)
        ensures
            r@ == guid_bytes_le(self.value),
            r@.len() == 16,
    {
        uuid_to_bytes_le(self.value)
    }
}

} // verus!
