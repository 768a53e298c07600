//! The two headers of the file and the choice of the current one.

use crate::checksum::crc32c_of;
use crate::checksum::crc32c_zeroed;
use crate::checksum::lemma_same_but_checksum;
use crate::checksum::lemma_same_but_checksum_append;
use crate::checksum::same_but_checksum;
use crate::checksum::with_zeroed_checksum;
use crate::encode::le_bytes_u16;
use crate::encode::lemma_le_u16_round_trip;
use crate::encode::lemma_le_u32_round_trip;
use crate::encode::lemma_le_u64_round_trip;
use crate::encode::le_bytes_u32;
use crate::encode::le_bytes_u64;
use crate::encode::put4;
use crate::encode::put_bytes;
use crate::encode::put_u16;
use crate::encode::put_u32;
use crate::encode::put_u64;
use crate::encode::put_zeros;
use crate::encode::zeros;
use crate::error::AlignedField;
use crate::error::VhdxError;
use crate::fti::fti_failure;
use crate::fti::FileTypeIdentifier;
use crate::guid::guid_bytes_le;
use crate::guid::guid_of_bytes_le;
use crate::guid::lemma_guid_value_round_trip;
use crate::guid::Guid;
use crate::parse_utils::guid_at;
use crate::parse_utils::le_u16_at;
use crate::parse_utils::le_u32_at;
use crate::parse_utils::le_u64_at;
use crate::parse_utils::read_guid;
use crate::parse_utils::read_sign_u32;
use crate::parse_utils::read_u16;
use crate::parse_utils::read_u32;
use crate::parse_utils::read_u64;
use crate::parse_utils::sign_u32_at;
use crate::region_table::region_table_failure;
use crate::region_table::RegionTable;
use crate::signatures::Signature;
use crate::Crc32;
use crate::DeSerialise;
use vstd::prelude::*;
use vstd::slice::slice_subrange;

verus! {

/// The size of the slot that a header stands in.
pub const HEADER_SIZE: usize = 65536;

/// The size of the header itself, the part of the slot that the checksum covers.
pub const HEADER_STRUCT_SIZE: usize = 4096;

/// One of the two headers of the file.
#[derive(Debug, Eq, PartialEq, Copy, Clone, Structural)]
pub struct Header {
    /// `head` in a header.
    pub signature: Signature,
    /// The stored CRC-32C of the 4 KiB of the header, computed with this
    /// field as zero.
    pub checksum: u32,
    /// The sequence number; of two good headers the one with the higher
    /// number is current.
    pub seq_number: u64,
    /// Changes before the first write to the file after an open.
    pub file_write_guid: Guid,
    /// Changes before the first write to what the user of the disk sees.
    pub data_write_guid: Guid,
    /// The GUID of the valid log entries; nil when there is nothing to replay.
    pub log_guid: Guid,
    /// The version of the log format, zero.
    pub log_version: u16,
    /// The version of the file format, one.
    pub version: u16,
    /// The length of the log in bytes, a multiple of 1 MiB.
    pub log_length: u32,
    /// The offset of the log in the file, a multiple of 1 MiB.
    pub log_offset: u64,
    /// The CRC-32C recomputed over the 4 KiB of the header, with the checksum
    /// field read as zero.
    pub computed_checksum: u32,
}

impl Header {
    /// The header that the first 4 KiB of `b` hold.
    pub open spec fn spec_parse(b: Seq<u8>) -> Header
        recommends
            b.len() >= 4096,
    {
        Header {
            signature: sign_u32_at(b, 0),
            checksum: le_u32_at(b, 4) as u32,
            seq_number: le_u64_at(b, 8) as u64,
            file_write_guid: Guid { value: guid_at(b, 16) as u128 },
            data_write_guid: Guid { value: guid_at(b, 32) as u128 },
            log_guid: Guid { value: guid_at(b, 48) as u128 },
            log_version: le_u16_at(b, 64) as u16,
            version: le_u16_at(b, 66) as u16,
            log_length: le_u32_at(b, 68) as u32,
            log_offset: le_u64_at(b, 72) as u64,
            computed_checksum: crc32c_of(with_zeroed_checksum(b.subrange(0, 4096))),
        }
    }

    /// Whether the signature is `head`.
    pub open spec fn spec_signature_ok(&self) -> bool {
        self.signature == Signature::Head
    }

    /// Whether the stored checksum is the recomputed one.
    pub open spec fn spec_crc_ok(&self) -> bool {
        self.checksum == self.computed_checksum
    }

    /// What keeps the header from being a candidate for the current header: a
    /// wrong signature, or else a wrong checksum.
    pub open spec fn spec_sign_and_crc(&self) -> Option<VhdxError> {
        if !self.spec_signature_ok() {
            Some(VhdxError::BadMagic { offset: 0, expected: Signature::Head, got: self.signature })
        } else if !self.spec_crc_ok() {
            Some(
                VhdxError::BadChecksum {
                    offset: 4,
                    expected: self.checksum,
                    got: self.computed_checksum,
                },
            )
        } else {
            None
        }
    }

    /// The first rule of the format that the header breaks, if any: signature
    /// and checksum are good, the version is 1, the log version is 0, and log
    /// length and log offset are multiples of 1 MiB. The offsets are those of
    /// the fields within the header.
    pub open spec fn spec_validate(&self) -> Option<VhdxError> {
        if self.spec_sign_and_crc() is Some {
            self.spec_sign_and_crc()
        } else if self.version != 1 {
            Some(VhdxError::BadVersion { offset: 66, version: self.version })
        } else if self.log_version != 0 {
            Some(VhdxError::BadLogVersion { offset: 64, version: self.log_version })
        } else if self.log_length % 0x10_0000 != 0 {
            Some(
                VhdxError::BadAlignment {
                    offset: 68,
                    field: AlignedField::LogLength,
                    value: self.log_length as u64,
                },
            )
        } else if self.log_offset % 0x10_0000 != 0 {
            Some(
                VhdxError::BadAlignment {
                    offset: 72,
                    field: AlignedField::LogOffset,
                    value: self.log_offset,
                },
            )
        } else {
            None
        }
    }

    /// The 4 KiB that hold the header on disk: the magic `head`, the fields in
    /// their order, and zeros from byte 80 on. The encoding begins with the
    /// magic of a header whatever `signature` holds, and does not depend on
    /// `computed_checksum`.
    pub open spec fn spec_encoding(&self) -> Seq<u8> {
        seq![0x68u8, 0x65u8, 0x61u8, 0x64u8] + le_bytes_u32(self.checksum) + le_bytes_u64(
            self.seq_number,
        ) + guid_bytes_le(self.file_write_guid.value) + guid_bytes_le(self.data_write_guid.value)
            + guid_bytes_le(self.log_guid.value) + le_bytes_u16(self.log_version) + le_bytes_u16(
            self.version,
        ) + le_bytes_u32(self.log_length) + le_bytes_u64(self.log_offset) + zeros(4016)
    }

    /// Encodes the header as the 4 KiB that hold it on disk.
    pub fn to_bytes(&self) -> (bytes: Vec<u8>)
        ensures
            bytes@ == self.spec_encoding(),
            bytes@.len() == 4096,
    {
        let mut out: Vec<u8> = Vec::new();
        put4(&mut out, 0x68, 0x65, 0x61, 0x64);
        assert(out@ =~= seq![0x68u8, 0x65u8, 0x61u8, 0x64u8]);
        put_u32(&mut out, self.checksum);
        put_u64(&mut out, self.seq_number);
        put_bytes(&mut out, self.file_write_guid.to_bytes_le().as_slice());
        put_bytes(&mut out, self.data_write_guid.to_bytes_le().as_slice());
        put_bytes(&mut out, self.log_guid.to_bytes_le().as_slice());
        put_u16(&mut out, self.log_version);
        put_u16(&mut out, self.version);
        put_u32(&mut out, self.log_length);
        put_u64(&mut out, self.log_offset);
        put_zeros(&mut out, 4016);
        out
    }

    /// Builds a header from its fields. The recomputed checksum is the
    /// CRC-32C of the encoding of the header with the checksum field read as
    /// zero: the header passes the checksum test exactly if `checksum` is that
    /// value.
    pub fn new(
        signature: Signature,
        checksum: u32,
        seq_number: u64,
        file_write_guid: Guid,
        data_write_guid: Guid,
        log_guid: Guid,
        log_version: u16,
        version: u16,
        log_length: u32,
        log_offset: u64,
    ) -> (h: Header)
        ensures
            h == (Header {
                signature,
                checksum,
                seq_number,
                file_write_guid,
                data_write_guid,
                log_guid,
                log_version,
                version,
                log_length,
                log_offset,
                computed_checksum: crc32c_of(with_zeroed_checksum(h.spec_encoding())),
            }),
    {
        let mut h = Header {
            signature,
            checksum,
            seq_number,
            file_write_guid,
            data_write_guid,
            log_guid,
            log_version,
            version,
            log_length,
            log_offset,
            computed_checksum: 0,
        };
        let bytes = h.to_bytes();
        h.computed_checksum = crc32c_zeroed(bytes.as_slice());
        h
    }

    /// The sequence number of the header.
    pub fn sequence_number(&self) -> (n: u64)
        ensures
            n == self.seq_number,
    {
        self.seq_number
    }

    /// Holds the header to the rules of the format and reports the first one
    /// that it breaks.
    pub fn validate(&self) -> (r: Result<(), VhdxError>)
        ensures
            match r {
                Ok(_) => self.spec_validate() is None,
                Err(e) => self.spec_validate() == Some(e),
            },
    {
        match check_sign_and_crc(self) {
            Ok(_) => {},
            Err(e) => {
                return Err(e);
            },
        }
        if self.version != 1 {
            Err(VhdxError::BadVersion { offset: 66, version: self.version })
        } else if self.log_version != 0 {
            Err(VhdxError::BadLogVersion { offset: 64, version: self.log_version })
        } else if self.log_length % 0x10_0000 != 0 {
            Err(
                VhdxError::BadAlignment {
                    offset: 68,
                    field: AlignedField::LogLength,
                    value: self.log_length as u64,
                },
            )
        } else if self.log_offset % 0x10_0000 != 0 {
            Err(
                VhdxError::BadAlignment {
                    offset: 72,
                    field: AlignedField::LogOffset,
                    value: self.log_offset,
                },
            )
        } else {
            Ok(())
        }
    }
}

/// The failure met when the bytes `b` are decoded as a header: the slot is
/// not whole.
pub open spec fn header_failure(b: Seq<u8>) -> Option<VhdxError> {
    if b.len() < 65536 {
        Some(VhdxError::Io { offset: b.len() as u64 })
    } else {
        None
    }
}

impl DeSerialise for Header {
    /// Any slot of 64 KiB decodes to a header: whether the header is good is
    /// for `validate` and for the choice of the current header to say.
    open spec fn decodes_to(bytes: Seq<u8>, r: Result<Self, VhdxError>) -> bool {
        match r {
            Ok(h) => header_failure(bytes) is None && h == Header::spec_parse(bytes),
            Err(e) => header_failure(bytes) == Some(e),
        }
    }

    fn deserialize(bytes: &[u8]) -> (r: Result<Self, VhdxError>) {
        if bytes.len() < HEADER_SIZE {
            return Err(VhdxError::Io { offset: bytes.len() as u64 });
        }
        Ok(parse_headers(bytes))
    }
}

/// Reads the header that the first 4 KiB of `buffer` hold, field by field, and
/// recomputes its checksum.
pub fn parse_headers(buffer: &[u8]) -> (h: Header)
    requires
        buffer.len() >= 4096,
    ensures
        h == Header::spec_parse(buffer@),
{
    Header {
        signature: read_sign_u32(buffer, 0),
        checksum: read_u32(buffer, 4),
        seq_number: read_u64(buffer, 8),
        file_write_guid: read_guid(buffer, 16),
        data_write_guid: read_guid(buffer, 32),
        log_guid: read_guid(buffer, 48),
        log_version: read_u16(buffer, 64),
        version: read_u16(buffer, 66),
        log_length: read_u32(buffer, 68),
        log_offset: read_u64(buffer, 72),
        computed_checksum: crc32c_zeroed(slice_subrange(buffer, 0, HEADER_STRUCT_SIZE)),
    }
}

impl Crc32 for Header {
    open spec fn spec_crc32(&self) -> u32 {
        self.computed_checksum
    }

    fn crc32(&self) -> (c: u32) {
        self.computed_checksum
    }
}

/// The 64 KiB slot of `file` that begins at `base`, or as much of it as the
/// file holds.
pub open spec fn slot_of(file: Seq<u8>, base: int) -> Seq<u8> {
    let start = if base <= file.len() {
        base
    } else {
        file.len() as int
    };
    let end = if base + 65536 <= file.len() {
        base + 65536
    } else {
        file.len() as int
    };
    file.subrange(start, end)
}

/// Takes the 64 KiB slot that begins at `base` out of `file`.
pub fn slot(file: &[u8], base: usize) -> (s: &[u8])
    ensures
        s@ == slot_of(file@, base as int),
{
    let len = file.len();
    let start = if base <= len {
        base
    } else {
        len
    };
    let end = if len >= 65536 && base <= len - 65536 {
        base + 65536
    } else {
        len
    };
    slice_subrange(file, start, end)
}

/// The failure `f`, if it is one, with its offset moved on by `base`.
pub open spec fn rebased_failure(f: Option<VhdxError>, base: u64) -> Option<VhdxError> {
    match f {
        Some(e) => Some(e.spec_rebased(base)),
        None => None,
    }
}

/// The five structures at the start of the file: the file-type identifier,
/// the two headers and the two region tables, each in a slot of 64 KiB.
#[derive(Debug)]
pub struct MainHeader {
    pub fti: FileTypeIdentifier,
    pub header_1: Header,
    pub header_2: Header,
    pub region_table_1: RegionTable,
    pub region_table_2: RegionTable,
}

/// The first failure met when the five structures at the start of `file` are
/// decoded in the order they lie in, with its offset counted from the start
/// of the file.
pub open spec fn main_header_failure(file: Seq<u8>) -> Option<VhdxError> {
    if fti_failure(slot_of(file, 0)) is Some {
        rebased_failure(fti_failure(slot_of(file, 0)), 0)
    } else if header_failure(slot_of(file, 0x1_0000)) is Some {
        rebased_failure(header_failure(slot_of(file, 0x1_0000)), 0x1_0000)
    } else if header_failure(slot_of(file, 0x2_0000)) is Some {
        rebased_failure(header_failure(slot_of(file, 0x2_0000)), 0x2_0000)
    } else if region_table_failure(slot_of(file, 0x3_0000)) is Some {
        rebased_failure(region_table_failure(slot_of(file, 0x3_0000)), 0x3_0000)
    } else {
        rebased_failure(region_table_failure(slot_of(file, 0x4_0000)), 0x4_0000)
    }
}

impl MainHeader {
    /// Whether `self` holds the five structures at the start of `file`.
    pub open spec fn spec_decoded_from(&self, file: Seq<u8>) -> bool {
        &&& self.fti.spec_decoded_from(slot_of(file, 0))
        &&& self.header_1 == Header::spec_parse(slot_of(file, 0x1_0000))
        &&& self.header_2 == Header::spec_parse(slot_of(file, 0x2_0000))
        &&& self.region_table_1.spec_decoded_from(slot_of(file, 0x3_0000))
        &&& self.region_table_2.spec_decoded_from(slot_of(file, 0x4_0000))
    }

    /// Builds the main header from its parts.
    pub fn new(
        fti: FileTypeIdentifier,
        header_1: Header,
        header_2: Header,
        region_table_1: RegionTable,
        region_table_2: RegionTable,
    ) -> (m: MainHeader)
        ensures
            m.fti == fti,
            m.header_1 == header_1,
            m.header_2 == header_2,
            m.region_table_1 == region_table_1,
            m.region_table_2 == region_table_2,
    {
        MainHeader { fti, header_1, header_2, region_table_1, region_table_2 }
    }
}

impl DeSerialise for MainHeader {
    /// The start of the file decodes to the five structures it holds, or to
    /// the first failure.
    open spec fn decodes_to(bytes: Seq<u8>, r: Result<Self, VhdxError>) -> bool {
        match r {
            Ok(m) => main_header_failure(bytes) is None && m.spec_decoded_from(bytes),
            Err(e) => main_header_failure(bytes) == Some(e),
        }
    }

    fn deserialize(bytes: &[u8]) -> (r: Result<Self, VhdxError>) {
        let fti = match FileTypeIdentifier::deserialize(slot(bytes, 0)) {
            Ok(fti) => fti,
            Err(e) => {
                return Err(e.rebased(0));
            },
        };
        let header_1 = match Header::deserialize(slot(bytes, 0x1_0000)) {
            Ok(h) => h,
            Err(e) => {
                return Err(e.rebased(0x1_0000));
            },
        };
        let header_2 = match Header::deserialize(slot(bytes, 0x2_0000)) {
            Ok(h) => h,
            Err(e) => {
                return Err(e.rebased(0x2_0000));
            },
        };
        let region_table_1 = match RegionTable::deserialize(slot(bytes, 0x3_0000)) {
            Ok(t) => t,
            Err(e) => {
                return Err(e.rebased(0x3_0000));
            },
        };
        let region_table_2 = match RegionTable::deserialize(slot(bytes, 0x4_0000)) {
            Ok(t) => t,
            Err(e) => {
                return Err(e.rebased(0x4_0000));
            },
        };
        Ok(MainHeader::new(fti, header_1, header_2, region_table_1, region_table_2))
    }
}

/// Checks signature and checksum of a header, the two things that make it a
/// candidate for the current header.
pub fn check_sign_and_crc(header: &Header) -> (r: Result<(), VhdxError>)
    ensures
        match r {
            Ok(_) => header.spec_sign_and_crc() is None,
            Err(e) => header.spec_sign_and_crc() == Some(e),
        },
{
    if header.signature != Signature::Head {
        return Err(
            VhdxError::BadMagic { offset: 0, expected: Signature::Head, got: header.signature },
        );
    }
    let crc = header.crc32();
    if header.checksum != crc {
        return Err(VhdxError::BadChecksum { offset: 4, expected: header.checksum, got: crc });
    }
    Ok(())
}

/// The number, 1 or 2, of the current header, given of each header whether
/// its signature is good, whether its checksum is good, and its sequence
/// number. A header is a candidate if signature and checksum are good. With no
/// candidate there is no current header; a single candidate is current; of two
/// candidates the one with the strictly higher sequence number is current, and
/// the first one if the numbers are equal.
pub open spec fn elected(
    signature_ok_1: bool,
    crc_ok_1: bool,
    seq_number_1: u64,
    signature_ok_2: bool,
    crc_ok_2: bool,
    seq_number_2: u64,
) -> Option<u32> {
    let candidate_1 = signature_ok_1 && crc_ok_1;
    let candidate_2 = signature_ok_2 && crc_ok_2;
    if !candidate_1 && !candidate_2 {
        None
    } else if !candidate_2 {
        Some(1)
    } else if !candidate_1 {
        Some(2)
    } else if seq_number_2 > seq_number_1 {
        Some(2)
    } else {
        Some(1)
    }
}

/// The number of the current header among `h1` and `h2`.
pub open spec fn current_header_of(h1: Header, h2: Header) -> Option<u32> {
    elected(
        h1.spec_signature_ok(),
        h1.spec_crc_ok(),
        h1.seq_number,
        h2.spec_signature_ok(),
        h2.spec_crc_ok(),
        h2.seq_number,
    )
}

/// Chooses the current header and returns it with its number, 1 or 2.
pub fn get_current_header<'a>(h1: &'a Header, h2: &'a Header) -> (r: Result<
    (u32, &'a Header),
    VhdxError,
>)
    ensures
        match r {
            Ok((number, header)) => current_header_of(*h1, *h2) == Some(number) && *header == (
            if number == 1 {
                *h1
            } else {
                *h2
            }),
            Err(e) => current_header_of(*h1, *h2) is None && e == (VhdxError::NoValidHeader {
                offset: 0,
            }),
        },
{
    let r1 = check_sign_and_crc(h1);
    let r2 = check_sign_and_crc(h2);
    if r1.is_err() && r2.is_err() {
        Err(VhdxError::NoValidHeader { offset: 0 })
    } else if r2.is_err() {
        Ok((1, h1))
    } else if r1.is_err() {
        Ok((2, h2))
    } else if h2.sequence_number() > h1.sequence_number() {
        Ok((2, h2))
    } else {
        Ok((1, h1))
    }
}

/// The choice of the current header depends on nothing but, of each header,
/// whether its signature is good, whether its checksum is good, and its
/// sequence number: two pairs of headers that agree in these make the same
/// choice.
pub proof fn lemma_election_is_determined(h1: Header, h2: Header, k1: Header, k2: Header)
    requires
        h1.spec_signature_ok() == k1.spec_signature_ok(),
        h1.spec_crc_ok() == k1.spec_crc_ok(),
        h1.seq_number == k1.seq_number,
        h2.spec_signature_ok() == k2.spec_signature_ok(),
        h2.spec_crc_ok() == k2.spec_crc_ok(),
        h2.seq_number == k2.seq_number,
    ensures
        current_header_of(h1, h2) == current_header_of(k1, k2),
{
}

/// The stored checksum has no part in the recomputed one: two headers that
/// differ at most in `checksum` and `computed_checksum` have encodings with
/// the same CRC-32C once the checksum field is read as zero.
pub proof fn lemma_header_checksum_ignores_stored(h: Header, k: Header)
    requires
        h == (Header { checksum: h.checksum, computed_checksum: h.computed_checksum, ..k }),
    ensures
        with_zeroed_checksum(h.spec_encoding()) == with_zeroed_checksum(k.spec_encoding()),
        h.spec_encoding().len() == 4096,
{
    let magic = seq![0x68u8, 0x65u8, 0x61u8, 0x64u8];
    let x0 = magic + le_bytes_u32(h.checksum);
    let y0 = magic + le_bytes_u32(k.checksum);
    assert(same_but_checksum(x0, y0));
    let t1 = le_bytes_u64(h.seq_number);
    lemma_same_but_checksum_append(x0, y0, t1);
    let t2 = guid_bytes_le(h.file_write_guid.value);
    lemma_same_but_checksum_append(x0 + t1, y0 + t1, t2);
    let t3 = guid_bytes_le(h.data_write_guid.value);
    lemma_same_but_checksum_append(x0 + t1 + t2, y0 + t1 + t2, t3);
    let t4 = guid_bytes_le(h.log_guid.value);
    lemma_same_but_checksum_append(x0 + t1 + t2 + t3, y0 + t1 + t2 + t3, t4);
    let t5 = le_bytes_u16(h.log_version);
    lemma_same_but_checksum_append(x0 + t1 + t2 + t3 + t4, y0 + t1 + t2 + t3 + t4, t5);
    let t6 = le_bytes_u16(h.version);
    lemma_same_but_checksum_append(x0 + t1 + t2 + t3 + t4 + t5, y0 + t1 + t2 + t3 + t4 + t5, t6);
    let t7 = le_bytes_u32(h.log_length);
    lemma_same_but_checksum_append(
        x0 + t1 + t2 + t3 + t4 + t5 + t6,
        y0 + t1 + t2 + t3 + t4 + t5 + t6,
        t7,
    );
    let t8 = le_bytes_u64(h.log_offset);
    lemma_same_but_checksum_append(
        x0 + t1 + t2 + t3 + t4 + t5 + t6 + t7,
        y0 + t1 + t2 + t3 + t4 + t5 + t6 + t7,
        t8,
    );
    lemma_same_but_checksum_append(
        x0 + t1 + t2 + t3 + t4 + t5 + t6 + t7 + t8,
        y0 + t1 + t2 + t3 + t4 + t5 + t6 + t7 + t8,
        zeros(4016),
    );
    lemma_same_but_checksum(h.spec_encoding(), k.spec_encoding());
}

/// Where the parts of a header lie in a slot that begins with them.
proof fn lemma_header_parts(
    part0: Seq<u8>,
    part1: Seq<u8>,
    part2: Seq<u8>,
    part3: Seq<u8>,
    part4: Seq<u8>,
    part5: Seq<u8>,
    part6: Seq<u8>,
    part7: Seq<u8>,
    part8: Seq<u8>,
    part9: Seq<u8>,
    rest: Seq<u8>,
)
    requires
        part0.len() == 4,
        part1.len() == 4,
        part2.len() == 8,
        part3.len() == 16,
        part4.len() == 16,
        part5.len() == 16,
        part6.len() == 2,
        part7.len() == 2,
        part8.len() == 4,
        part9.len() == 8,
    ensures
        ({
            let b = part0 + part1 + part2 + part3 + part4 + part5 + part6 + part7 + part8 + part9 + rest;
            &&& b.subrange(0, 4) == part0
            &&& b.subrange(4, 8) == part1
            &&& b.subrange(8, 16) == part2
            &&& b.subrange(16, 32) == part3
            &&& b.subrange(32, 48) == part4
            &&& b.subrange(48, 64) == part5
            &&& b.subrange(64, 66) == part6
            &&& b.subrange(66, 68) == part7
            &&& b.subrange(68, 72) == part8
            &&& b.subrange(72, 80) == part9
        }),
{
    let b = part0 + part1 + part2 + part3 + part4 + part5 + part6 + part7 + part8 + part9 + rest;
    assert(b.subrange(0, 4) =~= part0);
    assert(b.subrange(4, 8) =~= part1);
    assert(b.subrange(8, 16) =~= part2);
    assert(b.subrange(16, 32) =~= part3);
    assert(b.subrange(32, 48) =~= part4);
    assert(b.subrange(48, 64) =~= part5);
    assert(b.subrange(64, 66) =~= part6);
    assert(b.subrange(66, 68) =~= part7);
    assert(b.subrange(68, 72) =~= part8);
    assert(b.subrange(72, 80) =~= part9);
}

/// A slot that begins with the parts of a header decodes to the header that
/// the parts spell.
proof fn lemma_parse_of_parts(
    h: Header,
    part0: Seq<u8>,
    part1: Seq<u8>,
    part2: Seq<u8>,
    part3: Seq<u8>,
    part4: Seq<u8>,
    part5: Seq<u8>,
    part6: Seq<u8>,
    part7: Seq<u8>,
    part8: Seq<u8>,
    part9: Seq<u8>,
    rest: Seq<u8>,
)
    requires
        part0 == seq![0x68u8, 0x65u8, 0x61u8, 0x64u8],
        part1.len() == 4 && le_u32_at(part1, 0) == h.checksum,
        part2.len() == 8 && le_u64_at(part2, 0) == h.seq_number,
        part3.len() == 16 && guid_of_bytes_le(part3) == h.file_write_guid.value,
        part4.len() == 16 && guid_of_bytes_le(part4) == h.data_write_guid.value,
        part5.len() == 16 && guid_of_bytes_le(part5) == h.log_guid.value,
        part6.len() == 2 && le_u16_at(part6, 0) == h.log_version,
        part7.len() == 2 && le_u16_at(part7, 0) == h.version,
        part8.len() == 4 && le_u32_at(part8, 0) == h.log_length,
        part9.len() == 8 && le_u64_at(part9, 0) == h.log_offset,
        h.signature == Signature::Head,
        h.computed_checksum == crc32c_of(
            with_zeroed_checksum(
                (part0 + part1 + part2 + part3 + part4 + part5 + part6 + part7 + part8 + part9 + rest).subrange(0, 4096),
            ),
        ),
    ensures
        Header::spec_parse(part0 + part1 + part2 + part3 + part4 + part5 + part6 + part7 + part8 + part9 + rest) == h,
{
    lemma_header_parts(part0, part1, part2, part3, part4, part5, part6, part7, part8, part9, rest);
}

/// Decoding reverses encoding: a header with the signature `head`, whose
/// recomputed checksum is that of its encoding, is what its encoding decodes
/// to, whatever follows the 4 KiB of the encoding in the slot.
pub proof fn lemma_header_encoding_decodes(h: Header, padding: Seq<u8>)
    requires
        h.signature == Signature::Head,
        h.computed_checksum == crc32c_of(with_zeroed_checksum(h.spec_encoding())),
    ensures
        h.spec_encoding().len() == 4096,
        Header::spec_parse(h.spec_encoding() + padding) == h,
{
    let part0 = seq![0x68u8, 0x65u8, 0x61u8, 0x64u8];
    let part1 = le_bytes_u32(h.checksum);
    let part2 = le_bytes_u64(h.seq_number);
    let part3 = guid_bytes_le(h.file_write_guid.value);
    let part4 = guid_bytes_le(h.data_write_guid.value);
    let part5 = guid_bytes_le(h.log_guid.value);
    let part6 = le_bytes_u16(h.log_version);
    let part7 = le_bytes_u16(h.version);
    let part8 = le_bytes_u32(h.log_length);
    let part9 = le_bytes_u64(h.log_offset);
    lemma_le_u32_round_trip(h.checksum);
    lemma_le_u64_round_trip(h.seq_number);
    lemma_guid_value_round_trip(h.file_write_guid.value);
    lemma_guid_value_round_trip(h.data_write_guid.value);
    lemma_guid_value_round_trip(h.log_guid.value);
    lemma_le_u16_round_trip(h.log_version);
    lemma_le_u16_round_trip(h.version);
    lemma_le_u32_round_trip(h.log_length);
    lemma_le_u64_round_trip(h.log_offset);
    let fields = part0 + part1 + part2 + part3 + part4 + part5 + part6 + part7 + part8 + part9;
    let rest = zeros(4016) + padding;
    assert(fields.len() == 80);
    lemma_regroup(fields, zeros(4016), padding);
    lemma_parse_of_parts(h, part0, part1, part2, part3, part4, part5, part6, part7, part8, part9, rest);
}

/// A slot made of fields, zeros and padding begins with the fields and the
/// zeros.
proof fn lemma_regroup(fields: Seq<u8>, fill: Seq<u8>, padding: Seq<u8>)
    ensures
        fields + fill + padding == fields + (fill + padding),
        (fields + (fill + padding)).subrange(0, (fields.len() + fill.len()) as int) == fields + fill,
{
    assert(fields + fill + padding =~= fields + (fill + padding));
    assert((fields + (fill + padding)).subrange(0, (fields.len() + fill.len()) as int) =~= fields + fill);
}

/// In a header that breaks no rule, the stored checksum is the CRC-32C of the
/// 4 KiB of the header with the checksum field read as zero.
pub proof fn lemma_header_crc_round_trip(bytes: Seq<u8>, h: Header)
    requires
        Header::decodes_to(bytes, Ok(h)),
        h.spec_validate() is None,
    ensures
        crc32c_of(with_zeroed_checksum(bytes.subrange(0, 4096))) == le_u32_at(bytes, 4),
        h.checksum == le_u32_at(bytes, 4),
{
}

} // verus!
