//! The region table: where in the file the BAT and the metadata region lie.

use crate::checksum::crc32c_of;
use crate::checksum::crc32c_zeroed;
use crate::checksum::lemma_same_but_checksum;
use crate::checksum::lemma_same_but_checksum_append;
use crate::checksum::same_but_checksum;
use crate::checksum::with_zeroed_checksum;
use crate::encode::le_bytes_u32;
use crate::encode::le_bytes_u64;
use crate::encode::pad_to;
use crate::encode::padded_to;
use crate::encode::put4;
use crate::encode::put_bytes;
use crate::encode::put_u32;
use crate::encode::put_u64;
use crate::encode::put_zeros;
use crate::encode::zeros;
use crate::error::AlignedField;
use crate::error::VhdxError;
use crate::guid::guid_bytes_le;
use crate::guid::Guid;
use crate::parse_utils::first_failure;
use crate::parse_utils::guid_at;
use crate::parse_utils::le_u32_at;
use crate::parse_utils::le_u64_at;
use crate::parse_utils::read_guid;
use crate::parse_utils::read_sign_u32;
use crate::parse_utils::read_u32;
use crate::parse_utils::read_u64;
use crate::parse_utils::sign_u32_at;
use crate::signatures::Signature;
use crate::signatures::BAT_ENTRY;
use crate::signatures::META_DATA_ENTRY;
use crate::Crc32;
use crate::DeSerialise;
use vstd::prelude::*;
use vstd::slice::slice_subrange;

verus! {

/// The size of the slot that a region table fills, all of it under the checksum.
pub const RT_SIZE: usize = 65536;

/// The size of the fixed part at the start of a region table.
pub const RT_HEADER_SIZE: usize = 16;

/// The size of an entry of a region table.
pub const RT_ENTRY_SIZE: usize = 32;

/// The highest number of entries that a region table may announce.
pub const RT_MAX_ENTRIES: u32 = 2047;

/// The regions that this reader knows.
#[derive(Debug, PartialEq, Eq, Hash, Copy, Clone, Structural)]
pub enum KnowRegion {
    Bat,
    MetaData,
}

/// An entry of the region table.
#[derive(Debug, PartialEq, Eq, Copy, Clone, Structural)]
pub struct RTEntry {
    /// What the region is.
    pub guid: Guid,
    /// Where the region begins in the file: a multiple of 1 MiB, at least 1 MiB.
    pub file_offset: u64,
    /// The length of the region in bytes, a multiple of 1 MiB.
    pub length: u32,
    /// Whether a reader that does not know the region must refuse the file.
    pub required: bool,
}

impl RTEntry {
    /// The entry that the 32 bytes from `at` on hold. The entry is required
    /// when the last four bytes are not all zero.
    pub open spec fn spec_parse_at(b: Seq<u8>, at: int) -> RTEntry
        recommends
            0 <= at,
            at + 32 <= b.len(),
    {
        RTEntry {
            guid: Guid { value: guid_at(b, at) as u128 },
            file_offset: le_u64_at(b, at + 16) as u64,
            length: le_u32_at(b, at + 24) as u32,
            required: le_u32_at(b, at + 28) > 0,
        }
    }

    /// The known region that the entry locates, if it locates one.
    pub open spec fn spec_known_region(&self) -> Option<KnowRegion> {
        if self.guid.value == BAT_ENTRY {
            Some(KnowRegion::Bat)
        } else if self.guid.value == META_DATA_ENTRY {
            Some(KnowRegion::MetaData)
        } else {
            None
        }
    }

    /// Whether two regions collide: they begin at the same offset, or they
    /// have a byte in common.
    pub open spec fn spec_overlaps(&self, other: &RTEntry) -> bool {
        ||| self.file_offset == other.file_offset
        ||| (self.file_offset < other.file_offset + other.length && other.file_offset
            < self.file_offset + self.length)
    }

    /// The 32 bytes that hold the entry on disk. A required entry ends with
    /// the number one, another with zero.
    pub open spec fn spec_encoding(&self) -> Seq<u8> {
        guid_bytes_le(self.guid.value) + le_bytes_u64(self.file_offset) + le_bytes_u32(self.length)
            + le_bytes_u32(
            if self.required {
                1u32
            } else {
                0u32
            },
        )
    }

    /// Builds an entry from its fields.
    pub fn new(guid: Guid, file_offset: u64, length: u32, required: bool) -> (e: RTEntry)
        ensures
            e == (RTEntry { guid, file_offset, length, required }),
    {
        RTEntry { guid, file_offset, length, required }
    }

    /// Reads the entry at `at`.
    pub fn parse_at(b: &[u8], at: usize) -> (e: RTEntry)
        requires
            at + 32 <= b.len(),
        ensures
            e == RTEntry::spec_parse_at(b@, at as int),
    {
        RTEntry::new(
            read_guid(b, at),
            read_u64(b, at + 16),
            read_u32(b, at + 24),
            read_u32(b, at + 28) > 0,
        )
    }

    /// The known region that the entry locates, if it locates one.
    pub fn known_region(&self) -> (r: Option<KnowRegion>)
        ensures
            r == self.spec_known_region(),
    {
        if self.guid.value == BAT_ENTRY {
            Some(KnowRegion::Bat)
        } else if self.guid.value == META_DATA_ENTRY {
            Some(KnowRegion::MetaData)
        } else {
            None
        }
    }

    /// Whether two regions collide.
    pub fn overlaps(&self, other: &RTEntry) -> (r: bool)
        ensures
            r == self.spec_overlaps(other),
    {
        self.file_offset == other.file_offset || ((self.file_offset as u128) < (
        other.file_offset as u128) + (other.length as u128) && (other.file_offset as u128) < (
        self.file_offset as u128) + (self.length as u128))
    }
}

impl DeSerialise for RTEntry {
    /// Any 32 bytes decode to an entry.
    open spec fn decodes_to(bytes: Seq<u8>, r: Result<Self, VhdxError>) -> bool {
        match r {
            Ok(e) => bytes.len() >= 32 && e == RTEntry::spec_parse_at(bytes, 0),
            Err(e) => bytes.len() < 32 && e == (VhdxError::Io { offset: bytes.len() as u64 }),
        }
    }

    fn deserialize(bytes: &[u8]) -> (r: Result<Self, VhdxError>) {
        if bytes.len() < RT_ENTRY_SIZE {
            return Err(VhdxError::Io { offset: bytes.len() as u64 });
        }
        Ok(RTEntry::parse_at(bytes, 0))
    }
}

/// A region table: the fixed part and every entry, in the order of the table.
/// Entries that locate no known region are kept and play no part in finding a
/// region.
#[derive(Debug)]
pub struct RegionTable {
    /// `regi` in a region table.
    pub signature: Signature,
    /// The stored CRC-32C of the 64 KiB of the table, computed with this
    /// field as zero.
    pub checksum: u32,
    /// The number of entries, at most 2047.
    pub entry_count: u32,
    /// The entries.
    pub table_entries: Vec<RTEntry>,
    /// The CRC-32C recomputed over the 64 KiB of the table, with the
    /// checksum field read as zero.
    pub computed_checksum: u32,
}

/// The bytes that hold `entries` on disk, one entry behind the other.
pub open spec fn entries_encoding(entries: Seq<RTEntry>) -> Seq<u8>
    decreases entries.len(),
{
    if entries.len() == 0 {
        Seq::empty()
    } else {
        entries_encoding(entries.drop_last()) + entries.last().spec_encoding()
    }
}

/// Where entry `k` of a region table begins.
pub open spec fn entry_at(k: int) -> int {
    16 + 32 * k
}

/// Entry `k` of the region table `b`.
pub open spec fn entry_of(b: Seq<u8>, k: int) -> RTEntry {
    RTEntry::spec_parse_at(b, entry_at(k))
}

/// The entries of the region table `b`, as many as the table announces.
pub open spec fn table_entries_of(b: Seq<u8>) -> Seq<RTEntry> {
    Seq::new(le_u32_at(b, 8) as nat, |k: int| entry_of(b, k))
}

/// What is wrong with entry `k` of the region table `b`, taken by itself: it
/// is required and locates no known region; its file offset is no multiple of
/// 1 MiB or lies below 1 MiB; its length is no multiple of 1 MiB.
pub open spec fn entry_failure(b: Seq<u8>, k: int) -> Option<VhdxError> {
    let e = entry_of(b, k);
    if e.spec_known_region() is None && e.required {
        Some(VhdxError::UnknownRequiredRegion { offset: entry_at(k) as u64, guid: e.guid })
    } else if e.file_offset % 0x10_0000 != 0 || e.file_offset < 0x10_0000 {
        Some(
            VhdxError::BadAlignment {
                offset: (entry_at(k) + 16) as u64,
                field: AlignedField::RegionFileOffset,
                value: e.file_offset,
            },
        )
    } else if e.length % 0x10_0000 != 0 {
        Some(
            VhdxError::BadAlignment {
                offset: (entry_at(k) + 24) as u64,
                field: AlignedField::RegionLength,
                value: e.length as u64,
            },
        )
    } else {
        None
    }
}

/// `entry_failure` as a function of the entry's index.
pub open spec fn entry_failures(b: Seq<u8>) -> spec_fn(int) -> Option<VhdxError> {
    |k: int| entry_failure(b, k)
}

/// Whether the regions of the entries `i` and `k` of the table `b` collide.
pub open spec fn entries_overlap(b: Seq<u8>, i: int, k: int) -> bool {
    entry_of(b, i).spec_overlaps(&entry_of(b, k))
}

/// What is wrong with entry `k` of the region table `b` in view of the entries
/// before it: its region collides with one of theirs.
pub open spec fn overlap_failure(b: Seq<u8>, k: int) -> Option<VhdxError> {
    if exists|i: int| 0 <= i < k && #[trigger] entries_overlap(b, i, k) {
        Some(VhdxError::RegionOverlap { offset: entry_at(k) as u64 })
    } else {
        None
    }
}

/// `overlap_failure` as a function of the entry's index.
pub open spec fn overlap_failures(b: Seq<u8>) -> spec_fn(int) -> Option<VhdxError> {
    |k: int| overlap_failure(b, k)
}

/// The first failure met when the bytes `b` are decoded as a region table:
/// the length of the input, the signature, the number of entries, the
/// checksum, then the entries one by one, then their collisions.
pub open spec fn region_table_failure(b: Seq<u8>) -> Option<VhdxError> {
    let count = le_u32_at(b, 8);
    let stored = le_u32_at(b, 4) as u32;
    let computed = crc32c_of(with_zeroed_checksum(b.subrange(0, 65536)));
    if b.len() < 65536 {
        Some(VhdxError::Io { offset: b.len() as u64 })
    } else if sign_u32_at(b, 0) != Signature::Regi {
        Some(
            VhdxError::BadMagic {
                offset: 0,
                expected: Signature::Regi,
                got: sign_u32_at(b, 0),
            },
        )
    } else if count > 2047 {
        Some(VhdxError::BadEntryCount { offset: 8, count: count as u32 })
    } else if stored != computed {
        Some(VhdxError::BadChecksum { offset: 4, expected: stored, got: computed })
    } else if first_failure(entry_failures(b), 0, count) is Some {
        first_failure(entry_failures(b), 0, count)
    } else {
        first_failure(overlap_failures(b), 0, count)
    }
}

/// Whether the fixed part of the region table `b` is in order: the slot is
/// whole, the signature is `regi`, there are at most 2047 entries and the
/// stored checksum is the recomputed one.
pub open spec fn fixed_part_ok(b: Seq<u8>) -> bool {
    &&& b.len() >= 65536
    &&& sign_u32_at(b, 0) == Signature::Regi
    &&& le_u32_at(b, 8) <= 2047
    &&& le_u32_at(b, 4) as u32 == crc32c_of(with_zeroed_checksum(b.subrange(0, 65536)))
}

/// The last entry of `entries` that locates `region`.
pub open spec fn find_region(entries: Seq<RTEntry>, region: KnowRegion) -> Option<RTEntry>
    decreases entries.len(),
{
    if entries.len() == 0 {
        None
    } else if entries.last().spec_known_region() == Some(region) {
        Some(entries.last())
    } else {
        find_region(entries.drop_last(), region)
    }
}

impl RegionTable {
    /// Whether `self` is the region table that the bytes `b` hold.
    pub open spec fn spec_decoded_from(&self, b: Seq<u8>) -> bool {
        &&& self.signature == Signature::Regi
        &&& self.checksum == le_u32_at(b, 4)
        &&& self.computed_checksum == crc32c_of(with_zeroed_checksum(b.subrange(0, 65536)))
        &&& self.entry_count == le_u32_at(b, 8)
        &&& self.table_entries@ == table_entries_of(b)
    }

    /// The 64 KiB that hold the table on disk: the magic `regi`, checksum
    /// and number of entries, four reserved bytes, the entries, and zeros to the
    /// end of the slot. The encoding begins with the magic of a region table
    /// whatever `signature` holds, and does not depend on `computed_checksum`.
    /// A table with more entries than the slot holds is longer than the slot.
    pub open spec fn spec_encoding(&self) -> Seq<u8> {
        padded_to(
            seq![0x72u8, 0x65u8, 0x67u8, 0x69u8] + le_bytes_u32(self.checksum) + le_bytes_u32(
                self.entry_count,
            ) + zeros(4) + entries_encoding(self.table_entries@),
            65536,
        )
    }

    /// Encodes the table as the 64 KiB that hold it on disk.
    pub fn to_bytes(&self) -> (bytes: Vec<u8>)
        ensures
            bytes@ == self.spec_encoding(),
            bytes@.len() >= 65536,
    {
        let mut out: Vec<u8> = Vec::new();
        put4(&mut out, 0x72, 0x65, 0x67, 0x69);
        assert(out@ =~= seq![0x72u8, 0x65u8, 0x67u8, 0x69u8]);
        put_u32(&mut out, self.checksum);
        put_u32(&mut out, self.entry_count);
        put_zeros(&mut out, 4);
        let ghost fixed = out@;
        let n = self.table_entries.len();
        let mut k: usize = 0;
        assert(self.table_entries@.take(0) =~= Seq::<RTEntry>::empty());
        assert(fixed + entries_encoding(Seq::<RTEntry>::empty()) =~= fixed);
        while k < n
            invariant
                k <= n,
                n == self.table_entries@.len(),
                out@ == fixed + entries_encoding(self.table_entries@.take(k as int)),
            decreases n - k,
        {
            let ghost before = out@;
            let entry = self.table_entries[k];
            put_bytes(&mut out, entry.guid.to_bytes_le().as_slice());
            put_u64(&mut out, entry.file_offset);
            put_u32(&mut out, entry.length);
            put_u32(
                &mut out,
                if entry.required {
                    1
                } else {
                    0
                },
            );
            proof {
                let next = self.table_entries@.take(k + 1);
                assert(next.drop_last() =~= self.table_entries@.take(k as int));
                assert(next.last() == entry);
                assert(out@ =~= before + entry.spec_encoding());
                assert(out@ =~= fixed + entries_encoding(next));
            }
            k += 1;
        }
        assert(self.table_entries@.take(n as int) =~= self.table_entries@);
        pad_to(&mut out, RT_SIZE);
        out
    }

    /// Builds a region table that announces `entry_count` entries and holds
    /// none. The recomputed checksum is the CRC-32C of the encoding of the
    /// table with the checksum field read as zero.
    pub fn new(signature: Signature, checksum: u32, entry_count: u32) -> (t: RegionTable)
        ensures
            t.signature == signature,
            t.checksum == checksum,
            t.entry_count == entry_count,
            t.table_entries@.len() == 0,
            t.computed_checksum == crc32c_of(with_zeroed_checksum(t.spec_encoding())),
    {
        let mut t = RegionTable {
            signature,
            checksum,
            entry_count,
            table_entries: Vec::new(),
            computed_checksum: 0,
        };
        let bytes = t.to_bytes();
        t.computed_checksum = crc32c_zeroed(bytes.as_slice());
        t
    }

    /// Finds the entry that locates `region`: the last one, if several do.
    pub fn find(&self, region: KnowRegion) -> (r: Option<RTEntry>)
        ensures
            r == find_region(self.table_entries@, region),
    {
        let mut k = self.table_entries.len();
        assert(self.table_entries@.take(k as int) =~= self.table_entries@);
        while k > 0
            invariant
                k <= self.table_entries@.len(),
                find_region(self.table_entries@, region) == find_region(
                    self.table_entries@.take(k as int),
                    region,
                ),
            decreases k,
        {
            k -= 1;
            assert(self.table_entries@.take(k + 1).drop_last() =~= self.table_entries@.take(
                k as int,
            ));
            let entry = self.table_entries[k];
            match entry.known_region() {
                Some(found) => {
                    if found == region {
                        return Some(entry);
                    }
                },
                None => {},
            }
        }
        None
    }
}

/// Whether the region of entry `j` collides with that of an entry before it.
fn overlaps_earlier(bytes: &[u8], entries: &Vec<RTEntry>, j: usize) -> (r: bool)
    requires
        j < entries@.len(),
        forall|k: int| 0 <= k < entries@.len() ==> #[trigger] entries@[k] == entry_of(bytes@, k),
    ensures
        r == (overlap_failure(bytes@, j as int) is Some),
{
    let mut i: usize = 0;
    while i < j
        invariant
            i <= j < entries@.len(),
            forall|k: int|
                0 <= k < entries@.len() ==> #[trigger] entries@[k] == entry_of(bytes@, k),
            forall|k: int| 0 <= k < i ==> !#[trigger] entries_overlap(bytes@, k, j as int),
        decreases j - i,
    {
        if entries[i].overlaps(&entries[j]) {
            assert(entries_overlap(bytes@, i as int, j as int));
            return true;
        }
        i += 1;
    }
    false
}

impl DeSerialise for RegionTable {
    /// A slot of 64 KiB decodes to the region table it holds, or to the first
    /// failure.
    open spec fn decodes_to(bytes: Seq<u8>, r: Result<Self, VhdxError>) -> bool {
        match r {
            Ok(t) => region_table_failure(bytes) is None && t.spec_decoded_from(bytes),
            Err(e) => region_table_failure(bytes) == Some(e),
        }
    }

    fn deserialize(bytes: &[u8]) -> (r: Result<Self, VhdxError>) {
        if bytes.len() < RT_SIZE {
            return Err(VhdxError::Io { offset: bytes.len() as u64 });
        }
        let signature = read_sign_u32(bytes, 0);
        if signature != Signature::Regi {
            return Err(
                VhdxError::BadMagic { offset: 0, expected: Signature::Regi, got: signature },
            );
        }
        let checksum = read_u32(bytes, 4);
        let count32 = read_u32(bytes, 8);
        if count32 > RT_MAX_ENTRIES {
            return Err(VhdxError::BadEntryCount { offset: 8, count: count32 });
        }
        let computed_checksum = crc32c_zeroed(slice_subrange(bytes, 0, RT_SIZE));
        if checksum != computed_checksum {
            return Err(
                VhdxError::BadChecksum { offset: 4, expected: checksum, got: computed_checksum },
            );
        }
        let count = count32 as usize;
        let ghost f = entry_failures(bytes@);
        let mut table_entries: Vec<RTEntry> = Vec::new();
        let mut k: usize = 0;
        while k < count
            invariant
                k <= count <= 2047,
                fixed_part_ok(bytes@),
                count == le_u32_at(bytes@, 8),
                f == entry_failures(bytes@),
                first_failure(f, 0, count as int) == first_failure(f, k as int, count as int),
                table_entries@.len() == k,
                forall|j: int| 0 <= j < k ==> #[trigger] table_entries@[j] == entry_of(bytes@, j),
            decreases count - k,
        {
            let at = RT_HEADER_SIZE + RT_ENTRY_SIZE * k;
            let entry = RTEntry::parse_at(bytes, at);
            assert(f(k as int) == entry_failure(bytes@, k as int));
            if entry.known_region().is_none() && entry.required {
                return Err(
                    VhdxError::UnknownRequiredRegion { offset: at as u64, guid: entry.guid },
                );
            }
            if entry.file_offset % 0x10_0000 != 0 || entry.file_offset < 0x10_0000 {
                return Err(
                    VhdxError::BadAlignment {
                        offset: (at + 16) as u64,
                        field: AlignedField::RegionFileOffset,
                        value: entry.file_offset,
                    },
                );
            }
            if entry.length % 0x10_0000 != 0 {
                return Err(
                    VhdxError::BadAlignment {
                        offset: (at + 24) as u64,
                        field: AlignedField::RegionLength,
                        value: entry.length as u64,
                    },
                );
            }
            table_entries.push(entry);
            k += 1;
        }
        let ghost g = overlap_failures(bytes@);
        let mut j: usize = 0;
        while j < count
            invariant
                j <= count <= 2047,
                fixed_part_ok(bytes@),
                count == le_u32_at(bytes@, 8),
                first_failure(entry_failures(bytes@), 0, count as int) is None,
                table_entries@.len() == count,
                forall|k: int|
                    0 <= k < count ==> #[trigger] table_entries@[k] == entry_of(bytes@, k),
                g == overlap_failures(bytes@),
                first_failure(g, 0, count as int) == first_failure(g, j as int, count as int),
            decreases count - j,
        {
            assert(g(j as int) == overlap_failure(bytes@, j as int));
            if overlaps_earlier(bytes, &table_entries, j) {
                return Err(
                    VhdxError::RegionOverlap { offset: (RT_HEADER_SIZE + RT_ENTRY_SIZE * j) as u64 },
                );
            }
            j += 1;
        }
        assert(table_entries@ =~= table_entries_of(bytes@));
        Ok(
            RegionTable {
                signature,
                checksum,
                entry_count: count32,
                table_entries,
                computed_checksum,
            },
        )
    }
}

impl Crc32 for RegionTable {
    open spec fn spec_crc32(&self) -> u32 {
        self.computed_checksum
    }

    fn crc32(&self) -> (c: u32) {
        self.computed_checksum
    }
}

/// The stored checksum has no part in the recomputed one: two region tables
/// with the same number of entries and the same entries have encodings with
/// the same CRC-32C once the checksum field is read as zero.
pub proof fn lemma_table_checksum_ignores_stored(t: RegionTable, u: RegionTable)
    requires
        t.entry_count == u.entry_count,
        t.table_entries@ == u.table_entries@,
    ensures
        with_zeroed_checksum(t.spec_encoding()) == with_zeroed_checksum(u.spec_encoding()),
        t.spec_encoding().len() >= 65536,
{
    let magic = seq![0x72u8, 0x65u8, 0x67u8, 0x69u8];
    let x0 = magic + le_bytes_u32(t.checksum);
    let y0 = magic + le_bytes_u32(u.checksum);
    assert(same_but_checksum(x0, y0));
    let t1 = le_bytes_u32(t.entry_count);
    lemma_same_but_checksum_append(x0, y0, t1);
    let t2 = zeros(4);
    lemma_same_but_checksum_append(x0 + t1, y0 + t1, t2);
    let t3 = entries_encoding(t.table_entries@);
    lemma_same_but_checksum_append(x0 + t1 + t2, y0 + t1 + t2, t3);
    let fill = zeros(65536 - (x0 + t1 + t2 + t3).len());
    lemma_same_but_checksum_append(x0 + t1 + t2 + t3, y0 + t1 + t2 + t3, fill);
    lemma_same_but_checksum(t.spec_encoding(), u.spec_encoding());
}

/// In a region table that decodes, the stored checksum is the CRC-32C of the
/// 64 KiB of the table with the checksum field read as zero.
pub proof fn lemma_region_table_crc_round_trip(bytes: Seq<u8>, t: RegionTable)
    requires
        RegionTable::decodes_to(bytes, Ok(t)),
    ensures
        crc32c_of(with_zeroed_checksum(bytes.subrange(0, 65536))) == le_u32_at(bytes, 4),
        t.checksum == le_u32_at(bytes, 4),
        t.checksum == t.computed_checksum,
{
}

} // verus!
