//! The errors that decoding and validation report.

use crate::guid::Guid;
use crate::signatures::Signature;
use vstd::prelude::*;

verus! {

/// The decoder that gave up.
#[derive(Debug, Eq, PartialEq, Copy, Clone, Structural)]
pub enum ParseTag {
    /// A little-endian 16-bit integer.
    U16,
    /// A little-endian 32-bit integer.
    U32,
    /// A little-endian 64-bit integer.
    U64,
    /// A 4-byte signature.
    Sign4,
    /// An 8-byte signature.
    Sign8,
    /// A 16-byte GUID.
    Guid,
    /// The UTF-16 creator string.
    Creator,
    /// A run of flag bits.
    Bits,
}

/// What a byte codec reports: where in its input it stopped, and which codec it was.
///
/// For input that is too short `offset` is the length of the input, the place
/// where the missing bytes would have begun.
#[derive(Debug, Eq, PartialEq, Copy, Clone, Structural)]
pub struct VhdxParseError {
    pub offset: usize,
    pub tag: ParseTag,
}

/// The field whose alignment rule was broken.
#[derive(Debug, Eq, PartialEq, Copy, Clone, Structural)]
pub enum AlignedField {
    /// Header: log length, a multiple of 1 MiB.
    LogLength,
    /// Header: log offset, a multiple of 1 MiB.
    LogOffset,
    /// Region table entry: file offset, a multiple of 1 MiB and at least 1 MiB.
    RegionFileOffset,
    /// Region table entry: length, a multiple of 1 MiB.
    RegionLength,
    /// File parameters: block size, a multiple of 1 MiB.
    BlockSize,
    /// Virtual disk size, a multiple of the logical sector size.
    VirtualDiskSize,
    /// Log entry: entry length, a multiple of 4 KiB.
    EntryLength,
    /// Log entry: tail offset, a multiple of 4 KiB.
    Tail,
    /// Log entry: flushed file offset, a multiple of 1 MiB.
    FlushedFileOffset,
    /// Log entry: last file offset, a multiple of 1 MiB.
    LastFileOffset,
    /// Zero descriptor: length, a multiple of 4 KiB.
    ZeroLength,
    /// Descriptor: file offset, a multiple of 4 KiB.
    DescriptorFileOffset,
}

/// Every failure of the reader. `offset` is the byte offset, within the input
/// that the failing function was given, at which the failure was detected.
#[derive(Debug, Eq, PartialEq, Copy, Clone, Structural)]
#[allow(inconsistent_fields)]
pub enum VhdxError {
    /// The input ended before the structure did.
    Io { offset: u64 },
    /// A byte codec failed.
    Parse { offset: u64, tag: ParseTag },
    /// A signature is not the expected one.
    BadMagic { offset: u64, expected: Signature, got: Signature },
    /// The stored checksum (`expected`) is not the recomputed one (`got`).
    BadChecksum { offset: u64, expected: u32, got: u32 },
    /// The format version is not 1.
    BadVersion { offset: u64, version: u16 },
    /// The log version is not 0.
    BadLogVersion { offset: u64, version: u16 },
    /// A value is not the multiple that its field asks for.
    BadAlignment { offset: u64, field: AlignedField, value: u64 },
    /// A sector size other than 512 and 4096.
    BadSectorSize { offset: u64, value: u32 },
    /// The chunk ratio is not a whole number, or the table cannot be sized.
    BadGeometry { offset: u64 },
    /// Reserved bits of a BAT entry are set.
    BadBatReserved { offset: u64 },
    /// A present block of the BAT lies at offset zero or beyond the file.
    BadBatOffset { offset: u64, file_offset_mb: u64 },
    /// A log descriptor has an unknown signature or a foreign sequence number.
    BadDescriptor { offset: u64 },
    /// A data sector has a wrong signature or a foreign sequence number.
    BadDataSector { offset: u64 },
    /// A log entry has the sequence number zero.
    BadSequenceNumber { offset: u64 },
    /// A table announces more than 2047 entries.
    BadEntryCount { offset: u64, count: u32 },
    /// A required region has an identifier that is not known.
    UnknownRequiredRegion { offset: u64, guid: Guid },
    /// Two regions share a file offset or overlap.
    RegionOverlap { offset: u64 },
    /// A known region is absent from the region table.
    MissingKnownRegion { offset: u64, guid: Guid },
    /// A required metadata item has an identifier that is not known.
    UnknownRequiredMetadata { offset: u64, item: Guid },
    /// A metadata item that every disk must have is absent.
    MissingRequiredMetadata { offset: u64, item: Guid },
    /// Neither header has a good signature and checksum.
    NoValidHeader { offset: u64 },
}

impl VhdxError {
    /// The offset at which the failure was detected.
    pub open spec fn spec_offset(self) -> u64 {
        match self {
            VhdxError::Io { offset } => offset,
            VhdxError::Parse { offset, .. } => offset,
            VhdxError::BadMagic { offset, .. } => offset,
            VhdxError::BadChecksum { offset, .. } => offset,
            VhdxError::BadVersion { offset, .. } => offset,
            VhdxError::BadLogVersion { offset, .. } => offset,
            VhdxError::BadAlignment { offset, .. } => offset,
            VhdxError::BadSectorSize { offset, .. } => offset,
            VhdxError::BadGeometry { offset } => offset,
            VhdxError::BadBatReserved { offset } => offset,
            VhdxError::BadBatOffset { offset, .. } => offset,
            VhdxError::BadDescriptor { offset } => offset,
            VhdxError::BadDataSector { offset } => offset,
            VhdxError::BadSequenceNumber { offset } => offset,
            VhdxError::BadEntryCount { offset, .. } => offset,
            VhdxError::UnknownRequiredRegion { offset, .. } => offset,
            VhdxError::RegionOverlap { offset } => offset,
            VhdxError::MissingKnownRegion { offset, .. } => offset,
            VhdxError::UnknownRequiredMetadata { offset, .. } => offset,
            VhdxError::MissingRequiredMetadata { offset, .. } => offset,
            VhdxError::NoValidHeader { offset } => offset,
        }
    }

    /// The same failure, seen from an input that begins `base` bytes earlier.
    /// An offset that would pass `u64::MAX` stays there.
    pub open spec fn spec_rebased(self, base: u64) -> VhdxError {
        let o = if self.spec_offset() + base > u64::MAX {
            u64::MAX
        } else {
            (self.spec_offset() + base) as u64
        };
        match self {
            VhdxError::Io { .. } => VhdxError::Io { offset: o },
            VhdxError::Parse { tag, .. } => VhdxError::Parse { offset: o, tag },
            VhdxError::BadMagic { expected, got, .. } => VhdxError::BadMagic {
                offset: o,
                expected,
                got,
            },
            VhdxError::BadChecksum { expected, got, .. } => VhdxError::BadChecksum {
                offset: o,
                expected,
                got,
            },
            VhdxError::BadVersion { version, .. } => VhdxError::BadVersion { offset: o, version },
            VhdxError::BadLogVersion { version, .. } => VhdxError::BadLogVersion {
                offset: o,
                version,
            },
            VhdxError::BadAlignment { field, value, .. } => VhdxError::BadAlignment {
                offset: o,
                field,
                value,
            },
            VhdxError::BadSectorSize { value, .. } => VhdxError::BadSectorSize { offset: o, value },
            VhdxError::BadGeometry { .. } => VhdxError::BadGeometry { offset: o },
            VhdxError::BadBatReserved { .. } => VhdxError::BadBatReserved { offset: o },
            VhdxError::BadBatOffset { file_offset_mb, .. } => VhdxError::BadBatOffset {
                offset: o,
                file_offset_mb,
            },
            VhdxError::BadDescriptor { .. } => VhdxError::BadDescriptor { offset: o },
            VhdxError::BadDataSector { .. } => VhdxError::BadDataSector { offset: o },
            VhdxError::BadSequenceNumber { .. } => VhdxError::BadSequenceNumber { offset: o },
            VhdxError::BadEntryCount { count, .. } => VhdxError::BadEntryCount { offset: o, count },
            VhdxError::UnknownRequiredRegion { guid, .. } => VhdxError::UnknownRequiredRegion {
                offset: o,
                guid,
            },
            VhdxError::RegionOverlap { .. } => VhdxError::RegionOverlap { offset: o },
            VhdxError::MissingKnownRegion { guid, .. } => VhdxError::MissingKnownRegion {
                offset: o,
                guid,
            },
            VhdxError::UnknownRequiredMetadata { item, .. } => VhdxError::UnknownRequiredMetadata {
                offset: o,
                item,
            },
            VhdxError::MissingRequiredMetadata { item, .. } => VhdxError::MissingRequiredMetadata {
                offset: o,
                item,
            },
            VhdxError::NoValidHeader { .. } => VhdxError::NoValidHeader { offset: o },
        }
    }

    /// The offset at which the failure was detected.
    pub fn offset(&self) -> (o: u64)
        ensures
            o == self.spec_offset(),
    {
        match *self {
            VhdxError::Io { offset } => offset,
            VhdxError::Parse { offset, .. } => offset,
            VhdxError::BadMagic { offset, .. } => offset,
            VhdxError::BadChecksum { offset, .. } => offset,
            VhdxError::BadVersion { offset, .. } => offset,
            VhdxError::BadLogVersion { offset, .. } => offset,
            VhdxError::BadAlignment { offset, .. } => offset,
            VhdxError::BadSectorSize { offset, .. } => offset,
            VhdxError::BadGeometry { offset } => offset,
            VhdxError::BadBatReserved { offset } => offset,
            VhdxError::BadBatOffset { offset, .. } => offset,
            VhdxError::BadDescriptor { offset } => offset,
            VhdxError::BadDataSector { offset } => offset,
            VhdxError::BadSequenceNumber { offset } => offset,
            VhdxError::BadEntryCount { offset, .. } => offset,
            VhdxError::UnknownRequiredRegion { offset, .. } => offset,
            VhdxError::RegionOverlap { offset } => offset,
            VhdxError::MissingKnownRegion { offset, .. } => offset,
            VhdxError::UnknownRequiredMetadata { offset, .. } => offset,
            VhdxError::MissingRequiredMetadata { offset, .. } => offset,
            VhdxError::NoValidHeader { offset } => offset,
        }
    }

    /// Moves the failure into the frame of an input that begins `base` bytes
    /// before the one it was detected in.
    pub fn rebased(self, base: u64) -> (e: VhdxError)
        ensures
            e == self.spec_rebased(base),
    {
        let o = self.offset().saturating_add(base);
        match self {
            VhdxError::Io { .. } => VhdxError::Io { offset: o },
            VhdxError::Parse { tag, .. } => VhdxError::Parse { offset: o, tag },
            VhdxError::BadMagic { expected, got, .. } => VhdxError::BadMagic {
                offset: o,
                expected,
                got,
            },
            VhdxError::BadChecksum { expected, got, .. } => VhdxError::BadChecksum {
                offset: o,
                expected,
                got,
            },
            VhdxError::BadVersion { version, .. } => VhdxError::BadVersion { offset: o, version },
            VhdxError::BadLogVersion { version, .. } => VhdxError::BadLogVersion {
                offset: o,
                version,
            },
            VhdxError::BadAlignment { field, value, .. } => VhdxError::BadAlignment {
                offset: o,
                field,
                value,
            },
            VhdxError::BadSectorSize { value, .. } => VhdxError::BadSectorSize { offset: o, value },
            VhdxError::BadGeometry { .. } => VhdxError::BadGeometry { offset: o },
            VhdxError::BadBatReserved { .. } => VhdxError::BadBatReserved { offset: o },
            VhdxError::BadBatOffset { file_offset_mb, .. } => VhdxError::BadBatOffset {
                offset: o,
                file_offset_mb,
            },
            VhdxError::BadDescriptor { .. } => VhdxError::BadDescriptor { offset: o },
            VhdxError::BadDataSector { .. } => VhdxError::BadDataSector { offset: o },
            VhdxError::BadSequenceNumber { .. } => VhdxError::BadSequenceNumber { offset: o },
            VhdxError::BadEntryCount { count, .. } => VhdxError::BadEntryCount { offset: o, count },
            VhdxError::UnknownRequiredRegion { guid, .. } => VhdxError::UnknownRequiredRegion {
                offset: o,
                guid,
            },
            VhdxError::RegionOverlap { .. } => VhdxError::RegionOverlap { offset: o },
            VhdxError::MissingKnownRegion { guid, .. } => VhdxError::MissingKnownRegion {
                offset: o,
                guid,
            },
            VhdxError::UnknownRequiredMetadata { item, .. } => VhdxError::UnknownRequiredMetadata {
                offset: o,
                item,
            },
            VhdxError::MissingRequiredMetadata { item, .. } => VhdxError::MissingRequiredMetadata {
                offset: o,
                item,
            },
            VhdxError::NoValidHeader { .. } => VhdxError::NoValidHeader { offset: o },
        }
    }
}

impl From<VhdxParseError> for VhdxError {
    fn from(value: VhdxParseError) -> (e: VhdxError) {
        VhdxError::Parse { offset: value.offset as u64, tag: value.tag }
    }
}

impl vstd::std_specs::convert::FromSpecImpl<VhdxParseError> for VhdxError {
    open spec fn obeys_from_spec() -> bool {
        true
    }

    open spec fn from_spec(value: VhdxParseError) -> VhdxError {
        VhdxError::Parse { offset: value.offset as u64, tag: value.tag }
    }
}

} // verus!
