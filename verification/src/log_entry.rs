//! Decoding of log entries: the 64-byte header, the descriptors that follow
//! it, and the data sectors that begin at the next 4 KiB boundary.

use crate::checksum::crc32c_of;
use crate::checksum::crc32c_zeroed;
use crate::checksum::with_zeroed_checksum;
use crate::error::AlignedField;
use crate::error::VhdxError;
use crate::guid::Guid;
use crate::log::DataDesc;
use crate::log::DataSector;
use crate::log::Descriptor;
use crate::log::Log;
use crate::log::LogEntry;
use crate::log::LogHeader;
use crate::log::ZeroDesc;
use crate::parse_utils::first_failure;
use crate::parse_utils::guid_at;
use crate::parse_utils::le_u32_at;
use crate::parse_utils::le_u64_at;
use crate::parse_utils::read_guid;
use crate::parse_utils::read_sign_u32;
use crate::parse_utils::read_u32;
use crate::parse_utils::read_u64;
use crate::parse_utils::round_up_4k;
use crate::parse_utils::sign_u32_at;
use crate::signatures::Signature;
use crate::DeSerialise;
use vstd::prelude::*;
use vstd::slice::slice_subrange;
use vstd::slice::slice_to_vec;

verus! {

/// The size of the header of a log entry.
pub const LOG_HEADER_SIZE: usize = 64;

/// The size of a descriptor.
pub const DESC_SIZE: usize = 32;

/// The size of a data sector, and the unit that entries are aligned to.
pub const SECTOR_SIZE: usize = 4096;

impl LogHeader {
    /// The header that the first 64 bytes of `b` hold.
    pub open spec fn spec_parse(b: Seq<u8>) -> LogHeader
        recommends
            b.len() >= 64,
    {
        LogHeader {
            signature: sign_u32_at(b, 0),
            checksum: le_u32_at(b, 4) as u32,
            entry_length: le_u32_at(b, 8) as u32,
            tail: le_u32_at(b, 12) as u32,
            seq_number: le_u64_at(b, 16) as u64,
            descript_count: le_u32_at(b, 24) as u32,
            log_guid: Guid { value: guid_at(b, 32) as u128 },
            flushed_file_offset: le_u64_at(b, 48) as u64,
            last_file_offset: le_u64_at(b, 56) as u64,
        }
    }

    /// The first rule of the format that the header breaks, if any: the
    /// signature is `loge`; entry length and tail are multiples of 4 KiB; the
    /// sequence number is not zero; the two file offsets are multiples of 1 MiB.
    /// The offsets are those of the fields within the header.
    pub open spec fn spec_validate(&self) -> Option<VhdxError> {
        if self.signature != Signature::Loge {
            Some(VhdxError::BadMagic { offset: 0, expected: Signature::Loge, got: self.signature })
        } else if self.entry_length % 4096 != 0 {
            Some(
                VhdxError::BadAlignment {
                    offset: 8,
                    field: AlignedField::EntryLength,
                    value: self.entry_length as u64,
                },
            )
        } else if self.tail % 4096 != 0 {
            Some(
                VhdxError::BadAlignment {
                    offset: 12,
                    field: AlignedField::Tail,
                    value: self.tail as u64,
                },
            )
        } else if self.seq_number == 0 {
            Some(VhdxError::BadSequenceNumber { offset: 16 })
        } else if self.flushed_file_offset % 0x10_0000 != 0 {
            Some(
                VhdxError::BadAlignment {
                    offset: 48,
                    field: AlignedField::FlushedFileOffset,
                    value: self.flushed_file_offset,
                },
            )
        } else if self.last_file_offset % 0x10_0000 != 0 {
            Some(
                VhdxError::BadAlignment {
                    offset: 56,
                    field: AlignedField::LastFileOffset,
                    value: self.last_file_offset,
                },
            )
        } else {
            None
        }
    }

    /// Builds a header from its fields.
    pub fn new(
        signature: Signature,
        checksum: u32,
        entry_length: u32,
        tail: u32,
        seq_number: u64,
        descript_count: u32,
        log_guid: Guid,
        flushed_file_offset: u64,
        last_file_offset: u64,
    ) -> (h: LogHeader)
        ensures
            h == (LogHeader {
                signature,
                checksum,
                entry_length,
                tail,
                seq_number,
                descript_count,
                log_guid,
                flushed_file_offset,
                last_file_offset,
            }),
    {
        LogHeader {
            signature,
            checksum,
            entry_length,
            tail,
            seq_number,
            descript_count,
            log_guid,
            flushed_file_offset,
            last_file_offset,
        }
    }

    /// Holds the header to the rules of the format and reports the first one
    /// that it breaks.
    pub fn validate(&self) -> (r: Result<(), VhdxError>)
        ensures
            match r {
                Ok(_) => self.spec_validate() is None,
                Err(e) => self.spec_validate() == Some(e),
            },
    {
        if self.signature != Signature::Loge {
            Err(VhdxError::BadMagic { offset: 0, expected: Signature::Loge, got: self.signature })
        } else if self.entry_length % 4096 != 0 {
            Err(
                VhdxError::BadAlignment {
                    offset: 8,
                    field: AlignedField::EntryLength,
                    value: self.entry_length as u64,
                },
            )
        } else if self.tail % 4096 != 0 {
            Err(
                VhdxError::BadAlignment {
                    offset: 12,
                    field: AlignedField::Tail,
                    value: self.tail as u64,
                },
            )
        } else if self.seq_number == 0 {
            Err(VhdxError::BadSequenceNumber { offset: 16 })
        } else if self.flushed_file_offset % 0x10_0000 != 0 {
            Err(
                VhdxError::BadAlignment {
                    offset: 48,
                    field: AlignedField::FlushedFileOffset,
                    value: self.flushed_file_offset,
                },
            )
        } else if self.last_file_offset % 0x10_0000 != 0 {
            Err(
                VhdxError::BadAlignment {
                    offset: 56,
                    field: AlignedField::LastFileOffset,
                    value: self.last_file_offset,
                },
            )
        } else {
            Ok(())
        }
    }
}

impl DeSerialise for LogHeader {
    /// Any 64 bytes decode to a header; fewer do not.
    open spec fn decodes_to(bytes: Seq<u8>, r: Result<Self, VhdxError>) -> bool {
        match r {
            Ok(h) => bytes.len() >= 64 && h == LogHeader::spec_parse(bytes),
            Err(e) => bytes.len() < 64 && e == (VhdxError::Io { offset: bytes.len() as u64 }),
        }
    }

    fn deserialize(bytes: &[u8]) -> (r: Result<Self, VhdxError>) {
        if bytes.len() < LOG_HEADER_SIZE {
            return Err(VhdxError::Io { offset: bytes.len() as u64 });
        }
        Ok(
            LogHeader::new(
                read_sign_u32(bytes, 0),
                read_u32(bytes, 4),
                read_u32(bytes, 8),
                read_u32(bytes, 12),
                read_u64(bytes, 16),
                read_u32(bytes, 24),
                read_guid(bytes, 32),
                read_u64(bytes, 48),
                read_u64(bytes, 56),
            ),
        )
    }
}

impl ZeroDesc {
    /// The zero descriptor that the 32 bytes from `at` on hold.
    pub open spec fn spec_parse_at(b: Seq<u8>, at: int) -> ZeroDesc
        recommends
            0 <= at,
            at + 32 <= b.len(),
    {
        ZeroDesc {
            signature: sign_u32_at(b, at),
            zero_length: le_u64_at(b, at + 8) as u64,
            file_offset: le_u64_at(b, at + 16) as u64,
            seq_number: le_u64_at(b, at + 24) as u64,
        }
    }

    /// Reads the zero descriptor at `at`.
    pub fn parse_at(b: &[u8], at: usize) -> (z: ZeroDesc)
        requires
            at + 32 <= b.len(),
        ensures
            z == ZeroDesc::spec_parse_at(b@, at as int),
    {
        ZeroDesc {
            signature: read_sign_u32(b, at),
            zero_length: read_u64(b, at + 8),
            file_offset: read_u64(b, at + 16),
            seq_number: read_u64(b, at + 24),
        }
    }
}

impl DeSerialise for ZeroDesc {
    /// Any 32 bytes decode to a zero descriptor, whatever their signature.
    open spec fn decodes_to(bytes: Seq<u8>, r: Result<Self, VhdxError>) -> bool {
        match r {
            Ok(z) => bytes.len() >= 32 && z == ZeroDesc::spec_parse_at(bytes, 0),
            Err(e) => bytes.len() < 32 && e == (VhdxError::Io { offset: bytes.len() as u64 }),
        }
    }

    fn deserialize(bytes: &[u8]) -> (r: Result<Self, VhdxError>) {
        if bytes.len() < DESC_SIZE {
            return Err(VhdxError::Io { offset: bytes.len() as u64 });
        }
        Ok(ZeroDesc::parse_at(bytes, 0))
    }
}

impl DataDesc {
    /// Whether `self` is the data descriptor that the 32 bytes from `at` on
    /// hold, the data sector aside.
    pub open spec fn spec_parsed_at(&self, b: Seq<u8>, at: int) -> bool
        recommends
            0 <= at,
            at + 32 <= b.len(),
    {
        &&& self.signature == sign_u32_at(b, at)
        &&& self.trailing_bytes@ == b.subrange(at + 4, at + 8)
        &&& self.leading_bytes@ == b.subrange(at + 8, at + 16)
        &&& self.file_offset == le_u64_at(b, at + 16)
        &&& self.seq_number == le_u64_at(b, at + 24)
    }

    /// Reads the data descriptor at `at` and gives it `data_sector`.
    pub fn parse_at(b: &[u8], at: usize, data_sector: Option<DataSector>) -> (d: DataDesc)
        requires
            at + 32 <= b.len(),
        ensures
            d.spec_parsed_at(b@, at as int),
            d.data_sector == data_sector,
    {
        DataDesc {
            signature: read_sign_u32(b, at),
            trailing_bytes: slice_to_vec(slice_subrange(b, at + 4, at + 8)),
            leading_bytes: slice_to_vec(slice_subrange(b, at + 8, at + 16)),
            file_offset: read_u64(b, at + 16),
            seq_number: read_u64(b, at + 24),
            data_sector,
        }
    }
}

impl DeSerialise for DataDesc {
    /// Any 32 bytes decode to a data descriptor without a data sector,
    /// whatever their signature.
    open spec fn decodes_to(bytes: Seq<u8>, r: Result<Self, VhdxError>) -> bool {
        match r {
            Ok(d) => bytes.len() >= 32 && d.spec_parsed_at(bytes, 0) && d.data_sector is None,
            Err(e) => bytes.len() < 32 && e == (VhdxError::Io { offset: bytes.len() as u64 }),
        }
    }

    fn deserialize(bytes: &[u8]) -> (r: Result<Self, VhdxError>) {
        if bytes.len() < DESC_SIZE {
            return Err(VhdxError::Io { offset: bytes.len() as u64 });
        }
        Ok(DataDesc::parse_at(bytes, 0, None))
    }
}

impl DataSector {
    /// Whether `self` is the data sector that the 4096 bytes from `at` on hold.
    pub open spec fn spec_parsed_at(&self, b: Seq<u8>, at: int) -> bool
        recommends
            0 <= at,
            at + 4096 <= b.len(),
    {
        &&& self.signature == sign_u32_at(b, at)
        &&& self.seq_high == le_u32_at(b, at + 4)
        &&& self.data@ == b.subrange(at + 8, at + 4092)
        &&& self.seq_low == le_u32_at(b, at + 4092)
    }

    /// Reads the data sector at `at`.
    pub fn parse_at(b: &[u8], at: usize) -> (s: DataSector)
        requires
            at + 4096 <= b.len(),
        ensures
            s.spec_parsed_at(b@, at as int),
    {
        DataSector::new(
            read_sign_u32(b, at),
            read_u32(b, at + 4),
            slice_subrange(b, at + 8, at + 4092),
            read_u32(b, at + 4092),
        )
    }
}

impl DeSerialise for DataSector {
    /// Any 4096 bytes decode to a data sector, whatever their signature.
    open spec fn decodes_to(bytes: Seq<u8>, r: Result<Self, VhdxError>) -> bool {
        match r {
            Ok(s) => bytes.len() >= 4096 && s.spec_parsed_at(bytes, 0),
            Err(e) => bytes.len() < 4096 && e == (VhdxError::Io { offset: bytes.len() as u64 }),
        }
    }

    fn deserialize(bytes: &[u8]) -> (r: Result<Self, VhdxError>) {
        if bytes.len() < SECTOR_SIZE {
            return Err(VhdxError::Io { offset: bytes.len() as u64 });
        }
        Ok(DataSector::parse_at(bytes, 0))
    }
}

impl DeSerialise for Descriptor {
    /// 32 bytes that begin with `desc` decode to a data descriptor without a
    /// data sector, 32 bytes that begin with `zero` to a zero descriptor, and
    /// others to no descriptor at all.
    open spec fn decodes_to(bytes: Seq<u8>, r: Result<Self, VhdxError>) -> bool {
        match r {
            Ok(Descriptor::Data(d)) => bytes.len() >= 32 && sign_u32_at(bytes, 0)
                == Signature::Desc && d.spec_parsed_at(bytes, 0) && d.data_sector is None,
            Ok(Descriptor::Zero(z)) => bytes.len() >= 32 && sign_u32_at(bytes, 0)
                == Signature::Zero && z == ZeroDesc::spec_parse_at(bytes, 0),
            Err(e) => if bytes.len() < 32 {
                e == (VhdxError::Io { offset: bytes.len() as u64 })
            } else {
                sign_u32_at(bytes, 0) != Signature::Desc && sign_u32_at(bytes, 0)
                    != Signature::Zero && e == (VhdxError::BadDescriptor { offset: 0 })
            },
        }
    }

    fn deserialize(bytes: &[u8]) -> (r: Result<Self, VhdxError>) {
        if bytes.len() < DESC_SIZE {
            return Err(VhdxError::Io { offset: bytes.len() as u64 });
        }
        match read_sign_u32(bytes, 0) {
            Signature::Desc => Ok(Descriptor::Data(DataDesc::parse_at(bytes, 0, None))),
            Signature::Zero => Ok(Descriptor::Zero(ZeroDesc::parse_at(bytes, 0))),
            _ => Err(VhdxError::BadDescriptor { offset: 0 }),
        }
    }
}

/// Where descriptor `k` of an entry begins.
pub open spec fn desc_at(k: int) -> int {
    64 + 32 * k
}

/// Where the data sectors of an entry with `count` descriptors begin: at the
/// first 4 KiB boundary at or behind the end of the descriptors.
pub open spec fn sectors_start(count: int) -> int {
    round_up_4k(desc_at(count))
}

/// Whether descriptor `k` of the entry `b` is a data descriptor.
pub open spec fn is_data_desc(b: Seq<u8>, k: int) -> bool {
    sign_u32_at(b, desc_at(k)) == Signature::Desc
}

/// The number of data descriptors among the first `k` descriptors of `b`.
pub open spec fn data_before(b: Seq<u8>, k: int) -> int
    decreases k,
{
    if k <= 0 {
        0
    } else {
        data_before(b, k - 1) + if is_data_desc(b, k - 1) {
            1int
        } else {
            0int
        }
    }
}

/// Where the data sector of descriptor `k` begins, in an entry with `count`
/// descriptors: the sectors follow each other in the order of their descriptors.
pub open spec fn sector_at(b: Seq<u8>, count: int, k: int) -> int {
    sectors_start(count) + 4096 * data_before(b, k)
}

/// What is wrong with descriptor `k` of the entry `b` whose header has the
/// sequence number `seq`: a signature that is neither `desc` nor `zero`,
/// another sequence number, or a length or file offset that is no multiple of
/// 4 KiB.
pub open spec fn descriptor_failure(b: Seq<u8>, seq: u64, k: int) -> Option<VhdxError> {
    let at = desc_at(k);
    let sig = sign_u32_at(b, at);
    if sig != Signature::Desc && sig != Signature::Zero {
        Some(VhdxError::BadDescriptor { offset: at as u64 })
    } else if le_u64_at(b, at + 24) != seq {
        Some(VhdxError::BadDescriptor { offset: at as u64 })
    } else if sig == Signature::Zero && le_u64_at(b, at + 8) % 4096 != 0 {
        Some(
            VhdxError::BadAlignment {
                offset: (at + 8) as u64,
                field: AlignedField::ZeroLength,
                value: le_u64_at(b, at + 8) as u64,
            },
        )
    } else if le_u64_at(b, at + 16) % 4096 != 0 {
        Some(
            VhdxError::BadAlignment {
                offset: (at + 16) as u64,
                field: AlignedField::DescriptorFileOffset,
                value: le_u64_at(b, at + 16) as u64,
            },
        )
    } else {
        None
    }
}

/// `descriptor_failure` as a function of the descriptor's index.
pub open spec fn descriptor_failures(b: Seq<u8>, seq: u64) -> spec_fn(int) -> Option<VhdxError> {
    |k: int| descriptor_failure(b, seq, k)
}

/// What is wrong with the data sector of descriptor `k` of the entry `b` with
/// the header `h`: it does not lie inside the entry, its signature is not
/// `data`, or its two halves do not spell the sequence number of the header.
/// Nothing is wrong where descriptor `k` is a zero descriptor.
pub open spec fn sector_failure(b: Seq<u8>, h: LogHeader, k: int) -> Option<VhdxError> {
    let at = sector_at(b, h.descript_count as int, k);
    if !is_data_desc(b, k) {
        None
    } else if at + 4096 > h.entry_length {
        Some(VhdxError::BadDataSector { offset: at as u64 })
    } else if sign_u32_at(b, at) != Signature::Data {
        Some(VhdxError::BadDataSector { offset: at as u64 })
    } else if le_u32_at(b, at + 4) * 0x1_0000_0000 + le_u32_at(b, at + 4092) != h.seq_number {
        Some(VhdxError::BadDataSector { offset: at as u64 })
    } else {
        None
    }
}

/// `sector_failure` as a function of the descriptor's index.
pub open spec fn sector_failures(b: Seq<u8>, h: LogHeader) -> spec_fn(int) -> Option<VhdxError> {
    |k: int| sector_failure(b, h, k)
}

/// The first failure met when the bytes `b` are decoded as a log entry, in
/// reading order: the header, the length of the input, the descriptors one by
/// one, then the data sectors one by one.
pub open spec fn log_entry_failure(b: Seq<u8>) -> Option<VhdxError> {
    let h = LogHeader::spec_parse(b);
    let count = h.descript_count as int;
    if b.len() < 64 {
        Some(VhdxError::Io { offset: b.len() as u64 })
    } else if h.spec_validate() is Some {
        h.spec_validate()
    } else if b.len() < h.entry_length {
        Some(VhdxError::Io { offset: b.len() as u64 })
    } else if sectors_start(count) > h.entry_length {
        Some(VhdxError::BadDescriptor { offset: 64 })
    } else if first_failure(descriptor_failures(b, h.seq_number), 0, count) is Some {
        first_failure(descriptor_failures(b, h.seq_number), 0, count)
    } else {
        first_failure(sector_failures(b, h), 0, count)
    }
}

impl Descriptor {
    /// Whether `self` is descriptor `k` of the entry `b` with `count`
    /// descriptors, together with its data sector if it is a data descriptor.
    pub open spec fn spec_decoded_from(&self, b: Seq<u8>, count: int, k: int) -> bool {
        match self {
            Descriptor::Zero(z) => !is_data_desc(b, k) && *z == ZeroDesc::spec_parse_at(
                b,
                desc_at(k),
            ),
            Descriptor::Data(d) => is_data_desc(b, k) && d.spec_parsed_at(b, desc_at(k)) && (
            d.data_sector matches Some(s) && s.spec_parsed_at(b, sector_at(b, count, k))),
        }
    }
}

impl LogEntry {
    /// Whether `self` is the entry that the bytes `b` hold, standing at offset
    /// zero.
    pub open spec fn spec_decoded_from(&self, b: Seq<u8>) -> bool {
        self.offset == 0 && self.spec_content_of(b)
    }

    /// Whether header, descriptors and data sectors of `self` are those that
    /// the bytes `b` hold, and the checksum of `self` is the one recomputed
    /// over the `entry_length` bytes of the entry.
    pub open spec fn spec_content_of(&self, b: Seq<u8>) -> bool {
        &&& self.header == LogHeader::spec_parse(b)
        &&& self.computed_checksum == crc32c_of(
            with_zeroed_checksum(b.subrange(0, self.header.entry_length as int)),
        )
        &&& self.descriptors@.len() == self.header.descript_count
        &&& forall|k: int|
            0 <= k < self.descriptors@.len() ==> (#[trigger] self.descriptors@[k]).spec_decoded_from(
                b,
                self.header.descript_count as int,
                k,
            )
    }
}

/// Holds every descriptor of the entry `bytes` to the rules of the format and
/// reports the first failure.
fn check_descriptors(bytes: &[u8], header: &LogHeader) -> (r: Result<(), VhdxError>)
    requires
        desc_at(header.descript_count as int) <= bytes.len(),
    ensures
        match r {
            Ok(_) => first_failure(
                descriptor_failures(bytes@, header.seq_number),
                0,
                header.descript_count as int,
            ) is None,
            Err(e) => first_failure(
                descriptor_failures(bytes@, header.seq_number),
                0,
                header.descript_count as int,
            ) == Some(e),
        },
{
    let count = header.descript_count as usize;
    let ghost f = descriptor_failures(bytes@, header.seq_number);
    let mut k: usize = 0;
    while k < count
        invariant
            k <= count,
            count == header.descript_count,
            desc_at(count as int) <= bytes.len(),
            f == descriptor_failures(bytes@, header.seq_number),
            first_failure(f, 0, count as int) == first_failure(f, k as int, count as int),
        decreases count - k,
    {
        let at = LOG_HEADER_SIZE + DESC_SIZE * k;
        let sig = read_sign_u32(bytes, at);
        let zero_length = read_u64(bytes, at + 8);
        let file_offset = read_u64(bytes, at + 16);
        let seq = read_u64(bytes, at + 24);
        assert(f(k as int) == descriptor_failure(bytes@, header.seq_number, k as int));
        if sig != Signature::Desc && sig != Signature::Zero {
            return Err(VhdxError::BadDescriptor { offset: at as u64 });
        }
        if seq != header.seq_number {
            return Err(VhdxError::BadDescriptor { offset: at as u64 });
        }
        if sig == Signature::Zero && zero_length % 4096 != 0 {
            return Err(
                VhdxError::BadAlignment {
                    offset: (at + 8) as u64,
                    field: AlignedField::ZeroLength,
                    value: zero_length,
                },
            );
        }
        if file_offset % 4096 != 0 {
            return Err(
                VhdxError::BadAlignment {
                    offset: (at + 16) as u64,
                    field: AlignedField::DescriptorFileOffset,
                    value: file_offset,
                },
            );
        }
        k += 1;
    }
    Ok(())
}

impl DeSerialise for LogEntry {
    /// The bytes decode to the entry they hold, or to the first failure met in
    /// reading order. Bytes behind the entry are not read.
    open spec fn decodes_to(bytes: Seq<u8>, r: Result<Self, VhdxError>) -> bool {
        match r {
            Ok(entry) => log_entry_failure(bytes) is None && entry.spec_decoded_from(bytes),
            Err(e) => log_entry_failure(bytes) == Some(e),
        }
    }

    fn deserialize(bytes: &[u8]) -> (r: Result<Self, VhdxError>) {
        let header = match LogHeader::deserialize(bytes) {
            Ok(h) => h,
            Err(e) => {
                return Err(e);
            },
        };
        match header.validate() {
            Ok(_) => {},
            Err(e) => {
                return Err(e);
            },
        }
        let entry_length = header.entry_length as usize;
        if bytes.len() < entry_length {
            return Err(VhdxError::Io { offset: bytes.len() as u64 });
        }
        let count64 = header.descript_count as u64;
        let start64: u64 = ((64 + 32 * count64 + 4095) / 4096) * 4096;
        if start64 > header.entry_length as u64 {
            return Err(VhdxError::BadDescriptor { offset: 64 });
        }
        let count = header.descript_count as usize;
        let start = start64 as usize;
        match check_descriptors(bytes, &header) {
            Ok(_) => {},
            Err(e) => {
                return Err(e);
            },
        }
        let ghost f = sector_failures(bytes@, header);
        let mut descriptors: Vec<Descriptor> = Vec::new();
        let mut k: usize = 0;
        let mut data_seen: usize = 0;
        while k < count
            invariant
                k <= count,
                count == header.descript_count,
                bytes@.len() >= 64,
                header == LogHeader::spec_parse(bytes@),
                header.spec_validate() is None,
                first_failure(
                    descriptor_failures(bytes@, header.seq_number),
                    0,
                    count as int,
                ) is None,
                start == sectors_start(count as int),
                start <= entry_length <= bytes.len(),
                entry_length == header.entry_length,
                desc_at(count as int) <= start,
                data_seen == data_before(bytes@, k as int),
                start + 4096 * data_seen <= entry_length,
                f == sector_failures(bytes@, header),
                first_failure(f, 0, count as int) == first_failure(f, k as int, count as int),
                descriptors@.len() == k,
                forall|j: int|
                    0 <= j < k ==> (#[trigger] descriptors@[j]).spec_decoded_from(
                        bytes@,
                        count as int,
                        j,
                    ),
            decreases count - k,
        {
            let at = LOG_HEADER_SIZE + DESC_SIZE * k;
            assert(f(k as int) == sector_failure(bytes@, header, k as int));
            assert(data_before(bytes@, k + 1) == data_before(bytes@, k as int) + if is_data_desc(
                bytes@,
                k as int,
            ) {
                1int
            } else {
                0int
            });
            if read_sign_u32(bytes, at) == Signature::Desc {
                let sector = start + 4096 * data_seen;
                if entry_length - sector < 4096 {
                    return Err(VhdxError::BadDataSector { offset: sector as u64 });
                }
                let data_sector = DataSector::parse_at(bytes, sector);
                if data_sector.signature != Signature::Data {
                    return Err(VhdxError::BadDataSector { offset: sector as u64 });
                }
                if data_sector.sequence_number() != header.seq_number {
                    return Err(VhdxError::BadDataSector { offset: sector as u64 });
                }
                descriptors.push(Descriptor::Data(DataDesc::parse_at(bytes, at, Some(data_sector))));
                data_seen += 1;
            } else {
                descriptors.push(Descriptor::Zero(ZeroDesc::parse_at(bytes, at)));
            }
            k += 1;
        }
        let computed_checksum = crc32c_zeroed(slice_subrange(bytes, 0, entry_length));
        Ok(LogEntry { header, descriptors, offset: 0, computed_checksum })
    }
}

/// Whether the scan of the log region stops at `pos`: the region ends there,
/// or what begins there does not begin with `loge`.
pub open spec fn scan_stops_at(region: Seq<u8>, pos: int) -> bool {
    pos + 4 > region.len() || sign_u32_at(region, pos) != Signature::Loge
}

/// The length that the log entry at `pos` gives for itself.
pub open spec fn entry_length_at(region: Seq<u8>, pos: int) -> int {
    le_u32_at(region, pos + 8)
}

/// The failure that the scan from `pos` on ends with, if it ends with one: the
/// failure of the first entry that does not decode, with its offset counted
/// from the start of the region.
pub open spec fn scan_failure(region: Seq<u8>, pos: int) -> Option<VhdxError>
    decreases region.len() - pos,
{
    if pos < 0 || scan_stops_at(region, pos) {
        None
    } else {
        match log_entry_failure(region.skip(pos)) {
            Some(e) => Some(e.spec_rebased(pos as u64)),
            None => if entry_length_at(region, pos) > 0 {
                scan_failure(region, pos + entry_length_at(region, pos))
            } else {
                None
            },
        }
    }
}

/// The number of entries that the scan from `pos` on decodes before it stops.
pub open spec fn scan_count(region: Seq<u8>, pos: int) -> nat
    decreases region.len() - pos,
{
    if pos < 0 || scan_stops_at(region, pos) || log_entry_failure(region.skip(pos)) is Some
        || entry_length_at(region, pos) <= 0 {
        0
    } else {
        1 + scan_count(region, pos + entry_length_at(region, pos))
    }
}

/// Where entry `k` of the region begins: the first at the start of the region,
/// each later one where the one before it ends.
pub open spec fn scan_pos(region: Seq<u8>, k: nat) -> int
    decreases k,
{
    if k == 0 {
        0
    } else {
        scan_pos(region, (k - 1) as nat) + entry_length_at(
            region,
            scan_pos(region, (k - 1) as nat),
        )
    }
}

/// Looks at the four bytes at `pos` without taking them: the signature that
/// they spell, or `None` where fewer than four bytes are left.
pub fn peek_signature(bytes: &[u8], pos: usize) -> (r: Option<Signature>)
    ensures
        match r {
            Some(s) => pos + 4 <= bytes@.len() && s == sign_u32_at(bytes@, pos as int),
            None => pos + 4 > bytes@.len(),
        },
{
    if pos > bytes.len() || bytes.len() - pos < 4 {
        None
    } else {
        Some(read_sign_u32(bytes, pos))
    }
}

impl Log {
    /// Whether `self` holds the entries that the scan of `region` decodes, each
    /// with the offset at which it begins.
    pub open spec fn spec_scanned_from(&self, region: Seq<u8>) -> bool {
        &&& self.log_entries@.len() == scan_count(region, 0)
        &&& forall|k: int|
            0 <= k < self.log_entries@.len() ==> {
                &&& (#[trigger] self.log_entries@[k]).offset == scan_pos(region, k as nat)
                &&& self.log_entries@[k].spec_content_of(
                    region.skip(scan_pos(region, k as nat)),
                )
            }
    }
}

impl DeSerialise for Log {
    /// The bytes of the log region decode to the entries that lie in it one
    /// behind the other, from the start of the region to the first place where
    /// no entry begins; or to the failure of the first entry that does not
    /// decode.
    open spec fn decodes_to(bytes: Seq<u8>, r: Result<Self, VhdxError>) -> bool {
        match r {
            Ok(log) => scan_failure(bytes, 0) is None && log.spec_scanned_from(bytes),
            Err(e) => scan_failure(bytes, 0) == Some(e),
        }
    }

    fn deserialize(bytes: &[u8]) -> (r: Result<Self, VhdxError>) {
        let n = bytes.len();
        let mut log_entries: Vec<LogEntry> = Vec::new();
        let mut pos: usize = 0;
        while n - pos >= 4
            invariant
                n == bytes@.len(),
                pos <= n,
                scan_failure(bytes@, 0) == scan_failure(bytes@, pos as int),
                scan_count(bytes@, 0) == log_entries@.len() + scan_count(bytes@, pos as int),
                scan_pos(bytes@, log_entries@.len()) == pos,
                forall|k: int|
                    0 <= k < log_entries@.len() ==> {
                        &&& (#[trigger] log_entries@[k]).offset == scan_pos(bytes@, k as nat)
                        &&& log_entries@[k].spec_content_of(
                            bytes@.skip(scan_pos(bytes@, k as nat)),
                        )
                    },
            decreases n - pos,
        {
            match peek_signature(bytes, pos) {
                Some(Signature::Loge) => {},
                _ => {
                    return Ok(Log::new(log_entries));
                },
            }
            let mut entry = match LogEntry::deserialize(slice_subrange(bytes, pos, n)) {
                Ok(entry) => entry,
                Err(e) => {
                    return Err(e.rebased(pos as u64));
                },
            };
            let entry_length = entry.header.entry_length as usize;
            assert(entry_length == entry_length_at(bytes@, pos as int));
            assert(4096 <= entry_length <= n - pos);
            entry.offset = pos as u64;
            log_entries.push(entry);
            assert(scan_pos(bytes@, log_entries@.len()) == pos + entry_length);
            pos += entry_length;
        }
        Ok(Log::new(log_entries))
    }
}

} // verus!
