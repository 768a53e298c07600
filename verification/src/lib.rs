//! Decoding and validation of the VHDX virtual-disk container format.
//!
//! Every decoder is a function on bytes: the caller hands in the bytes of a
//! structure (a 64 KiB slot, a region, the whole file) and receives the decoded
//! value or the first failure. Each contract is stated over `Seq<u8>` and the
//! spec functions that sit next to the decoder. Structures that carry a
//! checksum can also be built from their fields and encoded; a built value
//! carries the checksum of its encoding.

use vstd::prelude::*;

pub mod bat;
pub mod bits_parsers;
pub mod checksum;
pub mod encode;
pub mod error;
pub mod fti;
pub mod guid;
pub mod log;
pub mod log_entry;
pub mod meta_data;
pub mod parse_utils;
pub mod region_table;
pub mod signatures;
pub mod vhdx;
pub mod vhdx_header;

pub use error::VhdxError;
pub use error::VhdxParseError;
pub use guid::Guid;
pub use signatures::Signature;

verus! {

/// A structure that is decoded from the bytes it occupies on disk.
pub trait DeSerialise: Sized {
    /// Whether `r` is what decoding `bytes` gives: the value that the bytes
    /// hold, or the first failure.
    spec fn decodes_to(bytes: Seq<u8>, r: Result<Self, VhdxError>) -> bool;

    /// Decodes the structure that begins at the first of `bytes`. Offsets in
    /// the error count from there.
    fn deserialize(bytes: &[u8]) -> (r: Result<Self, VhdxError>)
        ensures
            Self::decodes_to(bytes@, r),
    ;
}

/// A structure that carries a CRC-32C checksum of its own bytes.
pub trait Crc32 {
    /// The checksum recomputed over the bytes of the structure, with the
    /// checksum field read as zero: the bytes it was decoded from, or its
    /// encoding where it was built from its fields.
    spec fn spec_crc32(&self) -> u32;

    /// The recomputed checksum.
    fn crc32(&self) -> (c: u32)
        ensures
            c == self.spec_crc32(),
    ;
}

} // verus!
