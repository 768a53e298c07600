//! The block allocation table: how many entries it has, and what an entry says.

use crate::error::VhdxError;
use crate::meta_data::SectorSize;
use crate::parse_utils::first_failure;
use crate::parse_utils::le_u64_at;
use crate::parse_utils::read_u64;
use crate::DeSerialise;
use vstd::prelude::*;

verus! {

/// `a / b`, rounded up.
pub open spec fn ceil_div(a: int, b: int) -> int
    recommends
        a >= 0,
        b > 0,
{
    if a % b == 0 {
        a / b
    } else {
        a / b + 1
    }
}

/// The number of payload blocks that one sector-bitmap block covers.
pub open spec fn chunk_ratio_of(sector_size: int, block_size: int) -> int
    recommends
        block_size > 0,
{
    (0x80_0000 * sector_size) / block_size
}

/// The number of payload blocks that hold `virtual_disk_size` bytes.
pub open spec fn payload_blocks_of(virtual_disk_size: int, block_size: int) -> int
    recommends
        block_size > 0,
{
    ceil_div(virtual_disk_size, block_size)
}

/// The number of sector-bitmap blocks that cover `payload_blocks_count` blocks.
pub open spec fn sector_bitmap_blocks_of(payload_blocks_count: int, chunk_ratio: int) -> int
    recommends
        chunk_ratio > 0,
{
    ceil_div(payload_blocks_count, chunk_ratio)
}

/// The number of BAT entries of a fixed or dynamic disk: one per payload
/// block, and one for a sector-bitmap block after every full chunk that
/// another payload block follows. A disk without payload blocks has none.
pub open spec fn total_fixed_dynamic_of(payload_blocks_count: int, chunk_ratio: int) -> int
    recommends
        chunk_ratio > 0,
{
    if payload_blocks_count <= 0 {
        0
    } else {
        (payload_blocks_count - 1) / chunk_ratio + payload_blocks_count
    }
}

/// The number of BAT entries of a differencing disk: every chunk is whole and
/// ends with its sector-bitmap block.
pub open spec fn total_differencing_of(sector_bitmap_blocks_count: int, chunk_ratio: int) -> int {
    sector_bitmap_blocks_count * (chunk_ratio + 1)
}

/// Computes the chunk ratio, `2^23 * sector_size / block_size`, rounded down.
pub fn calc_chunk_ratio(sector_size: SectorSize, block_size: u64) -> (r: u64)
    requires
        block_size > 0,
    ensures
        r == chunk_ratio_of(sector_size.spec_bytes() as int, block_size as int),
{
    (0x80_0000u64 * (sector_size.bytes() as u64)) / block_size
}

/// Computes the number of payload blocks, `virtual_disk_size / block_size`
/// rounded up.
pub fn calc_payload_blocks_count(virtual_disk_size: u64, block_size: u64) -> (r: u64)
    requires
        block_size > 0,
    ensures
        r == payload_blocks_of(virtual_disk_size as int, block_size as int),
{
    let q = virtual_disk_size / block_size;
    if virtual_disk_size % block_size == 0 {
        q
    } else {
        assert(q < virtual_disk_size) by (nonlinear_arith)
            requires
                q == virtual_disk_size as int / block_size as int,
                virtual_disk_size as int % block_size as int != 0,
                block_size > 0,
        ;
        q + 1
    }
}

/// Computes the number of sector-bitmap blocks, `payload_blocks_count /
/// chunk_ratio` rounded up.
pub fn calc_sector_bitmap_blocks_count(payload_blocks_count: u64, chunk_ratio: u64) -> (r: u64)
    requires
        chunk_ratio > 0,
    ensures
        r == sector_bitmap_blocks_of(payload_blocks_count as int, chunk_ratio as int),
{
    let q = payload_blocks_count / chunk_ratio;
    if payload_blocks_count % chunk_ratio == 0 {
        q
    } else {
        assert(q < payload_blocks_count) by (nonlinear_arith)
            requires
                q == payload_blocks_count as int / chunk_ratio as int,
                payload_blocks_count as int % chunk_ratio as int != 0,
                chunk_ratio > 0,
        ;
        q + 1
    }
}

/// Computes the number of BAT entries of a fixed or dynamic disk.
pub fn calc_total_bat_entries_fixed_dynamic(payload_blocks_count: u64, chunk_ratio: u64) -> (r:
    u64)
    requires
        chunk_ratio > 0,
        total_fixed_dynamic_of(payload_blocks_count as int, chunk_ratio as int) <= u64::MAX,
    ensures
        r == total_fixed_dynamic_of(payload_blocks_count as int, chunk_ratio as int),
{
    if payload_blocks_count == 0 {
        0
    } else {
        (payload_blocks_count - 1) / chunk_ratio + payload_blocks_count
    }
}

/// Computes the number of BAT entries of a differencing disk.
pub fn calc_total_bat_entries_differencing(sector_bitmap_blocks_count: u64, chunk_ratio: u64) -> (r:
    u64)
    requires
        total_differencing_of(sector_bitmap_blocks_count as int, chunk_ratio as int) <= u64::MAX,
    ensures
        r == total_differencing_of(sector_bitmap_blocks_count as int, chunk_ratio as int),
{
    assert(chunk_ratio + 1 <= u64::MAX || sector_bitmap_blocks_count == 0) by (nonlinear_arith)
        requires
            sector_bitmap_blocks_count * (chunk_ratio + 1) <= u64::MAX,
    ;
    if sector_bitmap_blocks_count == 0 {
        assert(sector_bitmap_blocks_count * (chunk_ratio + 1) == 0) by (nonlinear_arith)
            requires
                sector_bitmap_blocks_count == 0,
        ;
        0
    } else {
        sector_bitmap_blocks_count * (chunk_ratio + 1)
    }
}

/// A block size that the format allows: a power of two from 1 MiB to 256 MiB.
pub open spec fn valid_block_size(block_size: int) -> bool {
    ||| block_size == 0x10_0000
    ||| block_size == 0x20_0000
    ||| block_size == 0x40_0000
    ||| block_size == 0x80_0000
    ||| block_size == 0x100_0000
    ||| block_size == 0x200_0000
    ||| block_size == 0x400_0000
    ||| block_size == 0x800_0000
    ||| block_size == 0x1000_0000
}

/// For a sector size of 512 or 4096 bytes and a block size that the format
/// allows, the chunk ratio times the block size is `2^23` times the sector
/// size, whatever the size of the disk; and a fixed or dynamic disk has at
/// least as many BAT entries as payload blocks.
pub proof fn lemma_geometry_identities(
    sector_size: SectorSize,
    block_size: int,
    virtual_disk_size: int,
)
    requires
        valid_block_size(block_size),
        virtual_disk_size >= 0,
    ensures
        chunk_ratio_of(sector_size.spec_bytes() as int, block_size) * block_size == 0x80_0000
            * sector_size.spec_bytes(),
        chunk_ratio_of(sector_size.spec_bytes() as int, block_size) >= 16,
        payload_blocks_of(virtual_disk_size, block_size) >= 0,
        total_fixed_dynamic_of(
            payload_blocks_of(virtual_disk_size, block_size),
            chunk_ratio_of(sector_size.spec_bytes() as int, block_size),
        ) >= payload_blocks_of(virtual_disk_size, block_size),
{
}

/// The numbers that size the BAT.
#[derive(Debug, Eq, PartialEq, Copy, Clone, Structural)]
pub struct Geometry {
    pub chunk_ratio: u64,
    pub payload_blocks_count: u64,
    pub sector_bitmaps_blocks_count: u64,
    pub total_bat_entries_fixed_dynamic: u64,
    pub total_bat_entries_differencing: u64,
}

/// The geometry of a disk of `virtual_disk_size` bytes with sectors of
/// `sector_size` bytes and blocks of `block_size` bytes. There is none where
/// the block size is zero or does not divide `2^23 * sector_size`, nor where a
/// total does not fit in 64 bits.
pub open spec fn geometry_of(sector_size: int, block_size: int, virtual_disk_size: int) -> Option<
    Geometry,
> {
    let chunk_ratio = chunk_ratio_of(sector_size, block_size);
    let payload = payload_blocks_of(virtual_disk_size, block_size);
    let bitmaps = sector_bitmap_blocks_of(payload, chunk_ratio);
    let fixed_dynamic = total_fixed_dynamic_of(payload, chunk_ratio);
    let differencing = total_differencing_of(bitmaps, chunk_ratio);
    if block_size <= 0 || (0x80_0000 * sector_size) % block_size != 0 || chunk_ratio <= 0 {
        None
    } else if fixed_dynamic > u64::MAX || differencing > u64::MAX {
        None
    } else {
        Some(
            Geometry {
                chunk_ratio: chunk_ratio as u64,
                payload_blocks_count: payload as u64,
                sector_bitmaps_blocks_count: bitmaps as u64,
                total_bat_entries_fixed_dynamic: fixed_dynamic as u64,
                total_bat_entries_differencing: differencing as u64,
            },
        )
    }
}

/// Computes the geometry of a disk, or `None` where it has none.
pub fn compute_geometry(sector_size: SectorSize, block_size: u64, virtual_disk_size: u64) -> (r:
    Option<Geometry>)
    ensures
        r == geometry_of(
            sector_size.spec_bytes() as int,
            block_size as int,
            virtual_disk_size as int,
        ),
{
    if block_size == 0 {
        return None;
    }
    let scaled: u64 = 0x80_0000u64 * (sector_size.bytes() as u64);
    if scaled % block_size != 0 {
        return None;
    }
    let chunk_ratio = calc_chunk_ratio(sector_size, block_size);
    if chunk_ratio == 0 {
        return None;
    }
    let payload = calc_payload_blocks_count(virtual_disk_size, block_size);
    let bitmaps = calc_sector_bitmap_blocks_count(payload, chunk_ratio);
    assert(bitmaps <= payload) by (nonlinear_arith)
        requires
            bitmaps == ceil_div(payload as int, chunk_ratio as int),
            chunk_ratio >= 1,
    ;
    let fixed_dynamic = if payload == 0 {
        Some(0u64)
    } else {
        ((payload - 1) / chunk_ratio).checked_add(payload)
    };
    let differencing = match chunk_ratio.checked_add(1) {
        Some(per_chunk) => bitmaps.checked_mul(per_chunk),
        None => {
            assert(bitmaps * (chunk_ratio + 1) > u64::MAX || bitmaps == 0) by (nonlinear_arith)
                requires
                    chunk_ratio + 1 > u64::MAX,
                    bitmaps >= 0,
            ;
            if bitmaps == 0 {
                assert(bitmaps * (chunk_ratio + 1) == 0) by (nonlinear_arith)
                    requires
                        bitmaps == 0,
                ;
                Some(0u64)
            } else {
                None
            }
        },
    };
    match (fixed_dynamic, differencing) {
        (Some(total_bat_entries_fixed_dynamic), Some(total_bat_entries_differencing)) => Some(
            Geometry {
                chunk_ratio,
                payload_blocks_count: payload,
                sector_bitmaps_blocks_count: bitmaps,
                total_bat_entries_fixed_dynamic,
                total_bat_entries_differencing,
            },
        ),
        _ => None,
    }
}

/// What a BAT entry says of its block.
#[derive(Debug, Eq, PartialEq, Copy, Clone, Structural)]
pub enum BatEntryState {
    /// 0: the block is not there.
    NotPresent,
    /// 1: the content of the block is not defined.
    Undefined,
    /// 2: the block reads as zeros.
    Zero,
    /// 3: the block was unmapped.
    Unmapped,
    /// 6: the block is there, all of it.
    FullyPresent,
    /// 7: the block is there in part; the sector bitmap says which part.
    PartiallyPresent,
    /// 4 and 5, which the format does not use.
    Unknown,
}

impl BatEntryState {
    /// The state that the three state bits spell.
    pub open spec fn spec_from_bits(value: int) -> BatEntryState {
        if value == 0 {
            BatEntryState::NotPresent
        } else if value == 1 {
            BatEntryState::Undefined
        } else if value == 2 {
            BatEntryState::Zero
        } else if value == 3 {
            BatEntryState::Unmapped
        } else if value == 6 {
            BatEntryState::FullyPresent
        } else if value == 7 {
            BatEntryState::PartiallyPresent
        } else {
            BatEntryState::Unknown
        }
    }

    /// Whether a block in this state has a place in the file.
    pub open spec fn spec_is_present(self) -> bool {
        self == BatEntryState::FullyPresent || self == BatEntryState::PartiallyPresent
    }

    /// The state that the three state bits spell.
    pub fn from_bits(value: u8) -> (s: BatEntryState)
        ensures
            s == BatEntryState::spec_from_bits(value as int),
    {
        match value {
            0 => BatEntryState::NotPresent,
            1 => BatEntryState::Undefined,
            2 => BatEntryState::Zero,
            3 => BatEntryState::Unmapped,
            6 => BatEntryState::FullyPresent,
            7 => BatEntryState::PartiallyPresent,
            _ => BatEntryState::Unknown,
        }
    }

    /// Whether a block in this state has a place in the file.
    pub fn is_present(&self) -> (r: bool)
        ensures
            r == self.spec_is_present(),
    {
        match self {
            BatEntryState::FullyPresent => true,
            BatEntryState::PartiallyPresent => true,
            _ => false,
        }
    }
}

/// An entry of the BAT: the state of a block and where the block lies.
#[derive(Debug, Eq, PartialEq, Copy, Clone, Structural)]
pub struct BatEntry {
    pub state: BatEntryState,
    /// The offset of the block in the file, in units of 1 MiB.
    pub file_offset_mb: u64,
}

/// The state bits of the entry at `b[at..at + 8]`: bits 0 to 2 of the
/// little-endian 64-bit value.
pub open spec fn bat_state_bits(b: Seq<u8>, at: int) -> int {
    le_u64_at(b, at) % 8
}

/// The reserved bits of the entry, bits 3 to 19.
pub open spec fn bat_reserved_bits(b: Seq<u8>, at: int) -> int {
    (le_u64_at(b, at) / 8) % 0x2_0000
}

/// The file offset of the entry in MiB, bits 20 to 63.
pub open spec fn bat_file_offset_mb(b: Seq<u8>, at: int) -> int {
    le_u64_at(b, at) / 0x10_0000
}

/// The entry that the eight bytes from `at` on hold.
pub open spec fn bat_entry_at(b: Seq<u8>, at: int) -> BatEntry {
    BatEntry {
        state: BatEntryState::spec_from_bits(bat_state_bits(b, at)),
        file_offset_mb: bat_file_offset_mb(b, at) as u64,
    }
}

impl BatEntry {
    /// Builds an entry from its parts.
    pub fn new(state: BatEntryState, file_offset_mb: u64) -> (e: BatEntry)
        ensures
            e == (BatEntry { state, file_offset_mb }),
    {
        BatEntry { state, file_offset_mb }
    }
}

/// Splits the eight bytes of a BAT entry into state and file offset in MiB.
/// The reserved bits between the two are passed over.
pub fn t_entry(input: &[u8]) -> (r: (BatEntryState, u64))
    requires
        input.len() >= 8,
    ensures
        r.0 == bat_entry_at(input@, 0).state,
        r.1 == bat_entry_at(input@, 0).file_offset_mb,
{
    let value = read_u64(input, 0);
    (BatEntryState::from_bits((value % 8) as u8), value / 0x10_0000)
}

impl DeSerialise for BatEntry {
    /// Eight bytes decode to a BAT entry if their reserved bits are zero.
    open spec fn decodes_to(bytes: Seq<u8>, r: Result<Self, VhdxError>) -> bool {
        match r {
            Ok(e) => bytes.len() >= 8 && bat_reserved_bits(bytes, 0) == 0 && e == bat_entry_at(
                bytes,
                0,
            ),
            Err(e) => if bytes.len() < 8 {
                e == (VhdxError::Io { offset: bytes.len() as u64 })
            } else {
                bat_reserved_bits(bytes, 0) != 0 && e == (VhdxError::BadBatReserved { offset: 0 })
            },
        }
    }

    fn deserialize(bytes: &[u8]) -> (r: Result<Self, VhdxError>) {
        if bytes.len() < 8 {
            return Err(VhdxError::Io { offset: bytes.len() as u64 });
        }
        let value = read_u64(bytes, 0);
        if (value / 8) % 0x2_0000 != 0 {
            return Err(VhdxError::BadBatReserved { offset: 0 });
        }
        let (state, file_offset_mb) = t_entry(bytes);
        Ok(BatEntry::new(state, file_offset_mb))
    }
}

/// The entries of the BAT, in the order of the table.
#[derive(Debug)]
pub struct BatTable {
    pub entries: Vec<BatEntry>,
}

/// What is wrong with entry `k` of the BAT `b` in a file of `file_len` bytes:
/// reserved bits are set, or the block is present and its offset is zero or
/// lies at or behind the end of the file.
pub open spec fn bat_entry_failure(b: Seq<u8>, file_len: u64, k: int) -> Option<VhdxError> {
    let e = bat_entry_at(b, 8 * k);
    if bat_reserved_bits(b, 8 * k) != 0 {
        Some(VhdxError::BadBatReserved { offset: (8 * k) as u64 })
    } else if e.state.spec_is_present() && (e.file_offset_mb == 0 || e.file_offset_mb * 0x10_0000
        >= file_len) {
        Some(VhdxError::BadBatOffset { offset: (8 * k) as u64, file_offset_mb: e.file_offset_mb })
    } else {
        None
    }
}

/// `bat_entry_failure` as a function of the entry's index.
pub open spec fn bat_entry_failures(b: Seq<u8>, file_len: u64) -> spec_fn(int) -> Option<
    VhdxError,
> {
    |k: int| bat_entry_failure(b, file_len, k)
}

/// The first failure met when `total` entries are decoded from the BAT region
/// `b`.
pub open spec fn bat_failure(b: Seq<u8>, total: u64, file_len: u64) -> Option<VhdxError> {
    if b.len() < 8 * total {
        Some(VhdxError::Io { offset: b.len() as u64 })
    } else {
        first_failure(bat_entry_failures(b, file_len), 0, total as int)
    }
}

/// The first `total` entries of the BAT region `b`.
pub open spec fn bat_entries_of(b: Seq<u8>, total: u64) -> Seq<BatEntry> {
    Seq::new(total as nat, |k: int| bat_entry_at(b, 8 * k))
}

impl BatTable {

    /// Decodes the `total` entries of the BAT from its region. `file_len` is
    /// the length of the file that the blocks lie in.
    pub fn deserialize(region: &[u8], total: u64, file_len: u64) -> (r: Result<
        BatTable,
        VhdxError,
    >)
        ensures
            match r {
                Ok(t) => bat_failure(region@, total, file_len) is None && t.entries@
                    == bat_entries_of(region@, total),
                Err(e) => bat_failure(region@, total, file_len) == Some(e),
            },
    {
        if total > (region.len() / 8) as u64 {
            return Err(VhdxError::Io { offset: region.len() as u64 });
        }
        let count = total as usize;
        let ghost f = bat_entry_failures(region@, file_len);
        let mut entries: Vec<BatEntry> = Vec::new();
        let mut k: usize = 0;
        while k < count
            invariant
                k <= count,
                count == total,
                8 * count <= region.len(),
                f == bat_entry_failures(region@, file_len),
                first_failure(f, 0, count as int) == first_failure(f, k as int, count as int),
                entries@.len() == k,
                forall|j: int| 0 <= j < k ==> #[trigger] entries@[j] == bat_entry_at(region@, 8 * j),
            decreases count - k,
        {
            let value = read_u64(region, 8 * k);
            assert(f(k as int) == bat_entry_failure(region@, file_len, k as int));
            if (value / 8) % 0x2_0000 != 0 {
                return Err(VhdxError::BadBatReserved { offset: (8 * k) as u64 });
            }
            let entry = BatEntry::new(
                BatEntryState::from_bits((value % 8) as u8),
                value / 0x10_0000,
            );
            if entry.state.is_present() && (entry.file_offset_mb == 0 || entry.file_offset_mb
                >= file_len / 0x10_0000 + (if file_len % 0x10_0000 == 0 {
                0u64
            } else {
                1u64
            })) {
                return Err(
                    VhdxError::BadBatOffset {
                        offset: (8 * k) as u64,
                        file_offset_mb: entry.file_offset_mb,
                    },
                );
            }
            entries.push(entry);
            k += 1;
        }
        assert(entries@ =~= bat_entries_of(region@, total));
        Ok(BatTable { entries })
    }
}

} // verus!
