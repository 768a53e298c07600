//! The file-type identifier, the first 64 KiB of the file.

use crate::error::ParseTag;
use crate::error::VhdxError;
use crate::parse_utils::creator_of;
use crate::parse_utils::t_creator;
use crate::signatures::classify_sign_u64;
use crate::signatures::sign_u64_of;
use crate::signatures::Signature;
use crate::DeSerialise;
use vstd::prelude::*;
use vstd::slice::slice_subrange;

verus! {

/// The size of the slot that the file-type identifier fills.
pub const FTI_SIZE: usize = 65536;

/// The magic `vhdxfile` and the name of the program that made the file.
#[derive(Debug)]
pub struct FileTypeIdentifier {
    pub signature: Signature,
    pub creator: String,
}

impl FileTypeIdentifier {
    /// Builds a file-type identifier from its parts.
    pub fn new(signature: Signature, creator: String) -> (f: FileTypeIdentifier)
        ensures
            f.signature == signature,
            f.creator == creator,
    {
        FileTypeIdentifier { signature, creator }
    }
}

/// The first failure met when the bytes `b` are decoded as a file-type
/// identifier: the slot is not whole, it does not begin with `vhdxfile`, or
/// the 512 bytes behind the magic are not well-formed UTF-16.
pub open spec fn fti_failure(b: Seq<u8>) -> Option<VhdxError> {
    if b.len() < 65536 {
        Some(VhdxError::Io { offset: b.len() as u64 })
    } else if sign_u64_of(b) != Signature::Vhdxfile {
        Some(VhdxError::BadMagic { offset: 0, expected: Signature::Vhdxfile, got: sign_u64_of(b) })
    } else if creator_of(b.skip(8)) is None {
        Some(VhdxError::Parse { offset: 8, tag: ParseTag::Creator })
    } else {
        None
    }
}

impl FileTypeIdentifier {
    /// Whether `self` is the file-type identifier that the bytes `b` hold.
    pub open spec fn spec_decoded_from(&self, b: Seq<u8>) -> bool {
        self.signature == Signature::Vhdxfile && creator_of(b.skip(8)) == Some(self.creator@)
    }
}

impl DeSerialise for FileTypeIdentifier {
    /// A slot of 64 KiB decodes to the file-type identifier it holds, or to
    /// the first failure. The slot behind the creator string is padding and
    /// is not read.
    open spec fn decodes_to(bytes: Seq<u8>, r: Result<Self, VhdxError>) -> bool {
        match r {
            Ok(f) => fti_failure(bytes) is None && f.spec_decoded_from(bytes),
            Err(e) => fti_failure(bytes) == Some(e),
        }
    }

    fn deserialize(bytes: &[u8]) -> (r: Result<Self, VhdxError>) {
        if bytes.len() < FTI_SIZE {
            return Err(VhdxError::Io { offset: bytes.len() as u64 });
        }
        let signature = classify_sign_u64(bytes);
        if signature != Signature::Vhdxfile {
            return Err(
                VhdxError::BadMagic { offset: 0, expected: Signature::Vhdxfile, got: signature },
            );
        }
        match t_creator(slice_subrange(bytes, 8, bytes.len())) {
            Ok((_, creator)) => Ok(FileTypeIdentifier::new(signature, creator)),
            Err(e) => Err(VhdxError::from(e).rebased(8)),
        }
    }
}

} // verus!
