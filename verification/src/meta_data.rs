//! The metadata region: the table of items and their typed values.

use crate::bat::compute_geometry;
use crate::bits_parsers::t_2_flags_u32;
use crate::bits_parsers::t_3_flags_u32;
use crate::bat::geometry_of;
use crate::bat::Geometry;
use crate::error::AlignedField;
use crate::error::VhdxError;
use crate::guid::Guid;
use crate::parse_utils::first_failure;
use crate::parse_utils::guid_at;
use crate::parse_utils::le_u16_at;
use crate::parse_utils::le_u32_at;
use crate::parse_utils::le_u64_at;
use crate::parse_utils::lemma_no_failure;
use crate::parse_utils::read_guid;
use crate::parse_utils::read_u16;
use crate::parse_utils::read_u32;
use crate::parse_utils::read_u64;
use crate::signatures::classify_sign_u64;
use crate::signatures::sign_u64_of;
use crate::signatures::MDKnownItems;
use crate::signatures::Signature;
use crate::signatures::FILE_PARAMETERS;
use crate::signatures::LOGICAL_SECTOR_SIZE;
use crate::signatures::PHYSICAL_SECTOR_SIZE;
use crate::signatures::VIRTUAL_DISK_ID;
use crate::signatures::VIRTUAL_DISK_SIZE;
use crate::DeSerialise;
use vstd::pervasive::unreached;
use vstd::prelude::*;
use vstd::slice::slice_subrange;

verus! {

/// The size of the fixed part at the start of the metadata table.
pub const MD_HEADER_SIZE: usize = 32;

/// The size of an entry of the metadata table.
pub const MD_ENTRY_SIZE: usize = 32;

/// The highest number of entries that the metadata table may announce.
pub const MD_MAX_ENTRIES: u16 = 2047;

/// The size of a sector: 512 or 4096 bytes, nothing else.
#[derive(Debug, Eq, PartialEq, Copy, Clone, Structural)]
pub enum SectorSize {
    Sector512,
    Sector4096,
}

impl SectorSize {
    /// The number of bytes in a sector.
    pub open spec fn spec_bytes(self) -> u32 {
        match self {
            SectorSize::Sector512 => 512,
            SectorSize::Sector4096 => 4096,
        }
    }

    /// The number of bytes in a sector.
    pub fn bytes(&self) -> (n: u32)
        ensures
            n == self.spec_bytes(),
    {
        match self {
            SectorSize::Sector512 => 512,
            SectorSize::Sector4096 => 4096,
        }
    }

    /// The sector size of `v` bytes, if there is one.
    pub fn try_from(v: u32) -> (r: Result<SectorSize, ()>)
        ensures
            v == 512 ==> r == Ok::<_, ()>(SectorSize::Sector512),
            v == 4096 ==> r == Ok::<_, ()>(SectorSize::Sector4096),
            v != 512 && v != 4096 ==> r is Err,
    {
        if v == 512 {
            Ok(SectorSize::Sector512)
        } else if v == 4096 {
            Ok(SectorSize::Sector4096)
        } else {
            Err(())
        }
    }
}

/// The value of a parent locator entry: the identifier of the parent, or a
/// path to it.
#[derive(Debug)]
pub enum LocatorTypeEntry {
    Guid(Guid),
    Path(String),
}

/// The value of the file parameters item.
#[derive(Debug, Eq, PartialEq, Copy, Clone, Structural)]
pub struct FileParameters {
    /// The size of a payload block in bytes, a multiple of 1 MiB.
    pub block_size: usize,
    /// Whether blocks stay allocated when they are no longer needed.
    pub leave_block_allocated: bool,
    /// Whether the disk is a differencing disk.
    pub has_parent: bool,
}

/// The typed value of a known metadata item.
#[derive(Debug, Eq, PartialEq, Copy, Clone, Structural)]
pub enum MDKnownEntries {
    FileParameters(FileParameters),
    VirtualDiskSize(u64),
    VirtualDiskID(Guid),
    LogicalSectorSize(SectorSize),
    PhysicalSectorSize(SectorSize),
    /// The parent locator of a differencing disk. Its value is not decoded.
    ParentLocator,
}

/// An entry of the metadata table, and the value of its item if the item is
/// a known one.
#[derive(Debug, Eq, PartialEq, Copy, Clone, Structural)]
pub struct Entry {
    /// What the item is.
    pub item_id: Guid,
    /// Where the value begins, in bytes from the start of the metadata region.
    pub offset: usize,
    /// The length of the value in bytes.
    pub length: usize,
    /// Whether the item belongs to the user rather than to the system.
    pub is_user: bool,
    /// Whether the item describes the virtual disk rather than the file.
    pub is_virtual_disk: bool,
    /// Whether a reader that does not know the item must refuse the file.
    pub is_required: bool,
    /// The value of a known item; `None` for an item that is not known.
    pub data: Option<MDKnownEntries>,
}

impl Entry {
    /// Builds an entry from its fields.
    pub fn new(
        item_id: Guid,
        offset: usize,
        length: usize,
        is_user: bool,
        is_virtual_disk: bool,
        is_required: bool,
        data: Option<MDKnownEntries>,
    ) -> (e: Entry)
        ensures
            e == (Entry { item_id, offset, length, is_user, is_virtual_disk, is_required, data }),
    {
        Entry { item_id, offset, length, is_user, is_virtual_disk, is_required, data }
    }
}

/// The sector size that a value of four bytes spells.
pub open spec fn sector_size_of(value: int) -> Option<SectorSize> {
    if value == 512 {
        Some(SectorSize::Sector512)
    } else if value == 4096 {
        Some(SectorSize::Sector4096)
    } else {
        None
    }
}

/// The file parameters that the eight bytes from `at` on hold: the block
/// size, and in the byte behind it two flags: bit 2 says whether blocks stay
/// allocated, bit 3 whether the disk has a parent.
pub open spec fn file_params_at(b: Seq<u8>, at: int) -> FileParameters {
    FileParameters {
        block_size: le_u32_at(b, at) as usize,
        leave_block_allocated: (b[at + 4] / 4) % 2 == 1,
        has_parent: (b[at + 4] / 8) % 2 == 1,
    }
}

/// Reads the file parameters at `at`.
pub fn parse_file_params(b: &[u8], at: usize) -> (p: FileParameters)
    requires
        at + 8 <= b.len(),
    ensures
        p == file_params_at(b@, at as int),
{
    let (leave_block_allocated, has_parent) = match t_2_flags_u32(
        (slice_subrange(b, at + 4, at + 8), 0),
    ) {
        Ok((_, flags)) => flags,
        Err(_) => unreached(),
    };
    FileParameters { block_size: read_u32(b, at) as usize, leave_block_allocated, has_parent }
}

/// The typed value of the known item `kind` whose `len` bytes begin at `off`
/// in the metadata region, or why there is none: the value is shorter than
/// its type, the block size is no multiple of 1 MiB, or the sector size is
/// neither 512 nor 4096.
pub open spec fn payload_outcome(region: Seq<u8>, kind: MDKnownItems, off: int, len: int) -> Result<
    MDKnownEntries,
    VhdxError,
> {
    let short = Err::<MDKnownEntries, VhdxError>(VhdxError::Io { offset: (off + len) as u64 });
    match kind {
        MDKnownItems::FileParamaters => if len < 8 {
            short
        } else if le_u32_at(region, off) % 0x10_0000 != 0 {
            Err(
                VhdxError::BadAlignment {
                    offset: off as u64,
                    field: AlignedField::BlockSize,
                    value: le_u32_at(region, off) as u64,
                },
            )
        } else {
            Ok(MDKnownEntries::FileParameters(file_params_at(region, off)))
        },
        MDKnownItems::VirtualDiskSize => if len < 8 {
            short
        } else {
            Ok(MDKnownEntries::VirtualDiskSize(le_u64_at(region, off) as u64))
        },
        MDKnownItems::VirtualDiskId => if len < 16 {
            short
        } else {
            Ok(MDKnownEntries::VirtualDiskID(Guid { value: guid_at(region, off) as u128 }))
        },
        MDKnownItems::LogicalSectorSize => if len < 4 {
            short
        } else {
            match sector_size_of(le_u32_at(region, off)) {
                Some(size) => Ok(MDKnownEntries::LogicalSectorSize(size)),
                None => Err(
                    VhdxError::BadSectorSize {
                        offset: off as u64,
                        value: le_u32_at(region, off) as u32,
                    },
                ),
            }
        },
        MDKnownItems::PhysicalSectorSize => if len < 4 {
            short
        } else {
            match sector_size_of(le_u32_at(region, off)) {
                Some(size) => Ok(MDKnownEntries::PhysicalSectorSize(size)),
                None => Err(
                    VhdxError::BadSectorSize {
                        offset: off as u64,
                        value: le_u32_at(region, off) as u32,
                    },
                ),
            }
        },
        MDKnownItems::ParentLocator => Ok(MDKnownEntries::ParentLocator),
    }
}

/// Reads a sector size at `at`.
pub fn t_sector_size(b: &[u8], at: usize) -> (r: Result<SectorSize, VhdxError>)
    requires
        at + 4 <= b.len(),
    ensures
        match r {
            Ok(size) => sector_size_of(le_u32_at(b@, at as int)) == Some(size),
            Err(e) => sector_size_of(le_u32_at(b@, at as int)) is None && e == (
            VhdxError::BadSectorSize { offset: at as u64, value: le_u32_at(b@, at as int) as u32 }),
        },
{
    let value = read_u32(b, at);
    match SectorSize::try_from(value) {
        Ok(size) => Ok(size),
        Err(_) => Err(VhdxError::BadSectorSize { offset: at as u64, value }),
    }
}

/// Reads the size of the virtual disk at `at`.
pub fn t_v_disk_size(b: &[u8], at: usize) -> (v: u64)
    requires
        at + 8 <= b.len(),
    ensures
        v == le_u64_at(b@, at as int),
{
    read_u64(b, at)
}

/// Decodes the typed value of the known item `kind`.
pub fn decode_payload(region: &[u8], kind: MDKnownItems, off: usize, len: usize) -> (r: Result<
    MDKnownEntries,
    VhdxError,
>)
    requires
        off + len <= region.len(),
    ensures
        r == payload_outcome(region@, kind, off as int, len as int),
{
    let short = VhdxError::Io { offset: (off + len) as u64 };
    match kind {
        MDKnownItems::FileParamaters => {
            if len < 8 {
                return Err(short);
            }
            let block_size = read_u32(region, off);
            if block_size % 0x10_0000 != 0 {
                return Err(
                    VhdxError::BadAlignment {
                        offset: off as u64,
                        field: AlignedField::BlockSize,
                        value: block_size as u64,
                    },
                );
            }
            Ok(MDKnownEntries::FileParameters(parse_file_params(region, off)))
        },
        MDKnownItems::VirtualDiskSize => {
            if len < 8 {
                return Err(short);
            }
            Ok(MDKnownEntries::VirtualDiskSize(t_v_disk_size(region, off)))
        },
        MDKnownItems::VirtualDiskId => {
            if len < 16 {
                return Err(short);
            }
            Ok(MDKnownEntries::VirtualDiskID(read_guid(region, off)))
        },
        MDKnownItems::LogicalSectorSize => {
            if len < 4 {
                return Err(short);
            }
            match t_sector_size(region, off) {
                Ok(size) => Ok(MDKnownEntries::LogicalSectorSize(size)),
                Err(e) => Err(e),
            }
        },
        MDKnownItems::PhysicalSectorSize => {
            if len < 4 {
                return Err(short);
            }
            match t_sector_size(region, off) {
                Ok(size) => Ok(MDKnownEntries::PhysicalSectorSize(size)),
                Err(e) => Err(e),
            }
        },
        MDKnownItems::ParentLocator => Ok(MDKnownEntries::ParentLocator),
    }
}

/// Where entry `k` of the metadata table begins.
pub open spec fn md_entry_at(k: int) -> int {
    32 + 32 * k
}

/// Entry `k` of the metadata table of `region`, without the value of its
/// item. The three flags are the three lowest bits of the byte at offset 24.
pub open spec fn descriptor_of(region: Seq<u8>, k: int) -> Entry {
    let at = md_entry_at(k);
    Entry {
        item_id: Guid { value: guid_at(region, at) as u128 },
        offset: le_u32_at(region, at + 16) as usize,
        length: le_u32_at(region, at + 20) as usize,
        is_user: region[at + 24] % 2 == 1,
        is_virtual_disk: (region[at + 24] / 2) % 2 == 1,
        is_required: (region[at + 24] / 4) % 2 == 1,
        data: None,
    }
}

/// What becomes of entry `k` of the metadata table of `region`. An entry with
/// a known item is decoded: its value must lie inside the region and decode
/// to its type. An entry with an unknown item is kept without a value if the
/// item is not required, and is a failure if it is.
pub open spec fn entry_outcome(region: Seq<u8>, k: int) -> Result<Entry, VhdxError> {
    let at = md_entry_at(k);
    let d = descriptor_of(region, k);
    match MDKnownItems::spec_from_guid(d.item_id.value) {
        None => if d.is_required {
            Err(VhdxError::UnknownRequiredMetadata { offset: at as u64, item: d.item_id })
        } else {
            Ok(d)
        },
        Some(kind) => if d.offset + d.length > region.len() {
            Err(VhdxError::Io { offset: (at + 16) as u64 })
        } else {
            match payload_outcome(region, kind, d.offset as int, d.length as int) {
                Ok(value) => Ok(Entry { data: Some(value), ..d }),
                Err(e) => Err(e),
            }
        },
    }
}

/// The failure of entry `k`, if it fails.
pub open spec fn entry_failure(region: Seq<u8>, k: int) -> Option<VhdxError> {
    match entry_outcome(region, k) {
        Ok(_) => None,
        Err(e) => Some(e),
    }
}

/// `entry_failure` as a function of the entry's index.
pub open spec fn entry_failures(region: Seq<u8>) -> spec_fn(int) -> Option<VhdxError> {
    |k: int| entry_failure(region, k)
}

/// The number of entries that the metadata table of `region` announces.
pub open spec fn entry_count_of(region: Seq<u8>) -> int {
    le_u16_at(region, 10)
}

/// The first failure met when the table of the metadata region is decoded:
/// the length of the input, the signature, the number of entries, then the
/// entries one by one.
pub open spec fn table_failure(region: Seq<u8>) -> Option<VhdxError> {
    let count = entry_count_of(region);
    if region.len() < 32 {
        Some(VhdxError::Io { offset: region.len() as u64 })
    } else if sign_u64_of(region) != Signature::MetaData {
        Some(
            VhdxError::BadMagic {
                offset: 0,
                expected: Signature::MetaData,
                got: sign_u64_of(region),
            },
        )
    } else if count > 2047 {
        Some(VhdxError::BadEntryCount { offset: 10, count: count as u32 })
    } else if region.len() < md_entry_at(count) {
        Some(VhdxError::Io { offset: region.len() as u64 })
    } else {
        first_failure(entry_failures(region), 0, count)
    }
}

/// Reads entry `k` of the metadata table and decodes the value of its item.
pub fn parse_entry(region: &[u8], k: usize) -> (r: Result<Entry, VhdxError>)
    requires
        md_entry_at(k as int) + 32 <= region.len(),
    ensures
        r == entry_outcome(region@, k as int),
{
    let at = MD_HEADER_SIZE + MD_ENTRY_SIZE * k;
    let item_id = read_guid(region, at);
    let offset = read_u32(region, at + 16) as usize;
    let length = read_u32(region, at + 20) as usize;
    let (is_user, is_virtual_disk, is_required) = match t_3_flags_u32(
        (slice_subrange(region, at + 24, at + 32), 0),
    ) {
        Ok((_, flags)) => flags,
        Err(_) => unreached(),
    };
    match MDKnownItems::from_guid(item_id.value) {
        None => {
            if is_required {
                Err(VhdxError::UnknownRequiredMetadata { offset: at as u64, item: item_id })
            } else {
                Ok(Entry::new(item_id, offset, length, is_user, is_virtual_disk, is_required, None))
            }
        },
        Some(kind) => {
            if length > region.len() || offset > region.len() - length {
                return Err(VhdxError::Io { offset: (at + 16) as u64 });
            }
            match decode_payload(region, kind, offset, length) {
                Ok(value) => Ok(
                    Entry::new(
                        item_id,
                        offset,
                        length,
                        is_user,
                        is_virtual_disk,
                        is_required,
                        Some(value),
                    ),
                ),
                Err(e) => Err(e),
            }
        },
    }
}

/// The last entry of `entries` whose item is `kind`.
pub open spec fn last_item(entries: Seq<Entry>, kind: MDKnownItems) -> Option<Entry>
    decreases entries.len(),
{
    if entries.len() == 0 {
        None
    } else if entries.last().item_id.value == kind.spec_guid() {
        Some(entries.last())
    } else {
        last_item(entries.drop_last(), kind)
    }
}

/// Finds the last entry whose item is `kind`.
pub fn find_item(entries: &Vec<Entry>, kind: MDKnownItems) -> (r: Option<Entry>)
    ensures
        r == last_item(entries@, kind),
{
    let wanted = kind.guid();
    let mut k = entries.len();
    assert(entries@.take(k as int) =~= entries@);
    while k > 0
        invariant
            k <= entries@.len(),
            wanted == kind.spec_guid(),
            last_item(entries@, kind) == last_item(entries@.take(k as int), kind),
        decreases k,
    {
        k -= 1;
        assert(entries@.take(k + 1).drop_last() =~= entries@.take(k as int));
        if entries[k].item_id.value == wanted {
            return Some(entries[k]);
        }
    }
    None
}

/// The file parameters among `entries`.
pub open spec fn file_parameters_of(entries: Seq<Entry>) -> Option<FileParameters> {
    match last_item(entries, MDKnownItems::FileParamaters) {
        Some(Entry { data: Some(MDKnownEntries::FileParameters(p)), .. }) => Some(p),
        _ => None,
    }
}

/// The size of the virtual disk among `entries`.
pub open spec fn virtual_disk_size_of(entries: Seq<Entry>) -> Option<u64> {
    match last_item(entries, MDKnownItems::VirtualDiskSize) {
        Some(Entry { data: Some(MDKnownEntries::VirtualDiskSize(v)), .. }) => Some(v),
        _ => None,
    }
}

/// The identifier of the virtual disk among `entries`.
pub open spec fn virtual_disk_id_of(entries: Seq<Entry>) -> Option<Guid> {
    match last_item(entries, MDKnownItems::VirtualDiskId) {
        Some(Entry { data: Some(MDKnownEntries::VirtualDiskID(g)), .. }) => Some(g),
        _ => None,
    }
}

/// The logical sector size among `entries`.
pub open spec fn logical_sector_size_of(entries: Seq<Entry>) -> Option<SectorSize> {
    match last_item(entries, MDKnownItems::LogicalSectorSize) {
        Some(Entry { data: Some(MDKnownEntries::LogicalSectorSize(s)), .. }) => Some(s),
        _ => None,
    }
}

/// The physical sector size among `entries`.
pub open spec fn physical_sector_size_of(entries: Seq<Entry>) -> Option<SectorSize> {
    match last_item(entries, MDKnownItems::PhysicalSectorSize) {
        Some(Entry { data: Some(MDKnownEntries::PhysicalSectorSize(s)), .. }) => Some(s),
        _ => None,
    }
}

/// What `entries` say of the disk.
#[derive(Debug, Eq, PartialEq, Copy, Clone, Structural)]
pub struct Bundle {
    pub file_parameters: FileParameters,
    pub virtual_disk_size: u64,
    pub virtual_disk_id: Guid,
    pub logical_sector_size: SectorSize,
    pub physical_sector_size: SectorSize,
    pub geometry: Geometry,
}

/// The geometry that `entries` give the disk, where they hold what it takes.
pub open spec fn geometry_among(entries: Seq<Entry>) -> Option<Geometry> {
    geometry_of(
        logical_sector_size_of(entries)->0.spec_bytes() as int,
        file_parameters_of(entries)->0.block_size as int,
        virtual_disk_size_of(entries)->0 as int,
    )
}

/// Why `entries` do not describe a disk, if they do not: an item that every
/// disk must have is absent; the size of the disk is no multiple of the
/// logical sector size; the disk has no geometry. The offset is that of the
/// value of the item at fault, and zero for an absent one.
pub open spec fn bundle_failure(entries: Seq<Entry>) -> Option<VhdxError> {
    if file_parameters_of(entries) is None {
        Some(
            VhdxError::MissingRequiredMetadata { offset: 0, item: Guid { value: FILE_PARAMETERS } },
        )
    } else if virtual_disk_size_of(entries) is None {
        Some(
            VhdxError::MissingRequiredMetadata {
                offset: 0,
                item: Guid { value: VIRTUAL_DISK_SIZE },
            },
        )
    } else if logical_sector_size_of(entries) is None {
        Some(
            VhdxError::MissingRequiredMetadata {
                offset: 0,
                item: Guid { value: LOGICAL_SECTOR_SIZE },
            },
        )
    } else if physical_sector_size_of(entries) is None {
        Some(
            VhdxError::MissingRequiredMetadata {
                offset: 0,
                item: Guid { value: PHYSICAL_SECTOR_SIZE },
            },
        )
    } else if virtual_disk_id_of(entries) is None {
        Some(
            VhdxError::MissingRequiredMetadata { offset: 0, item: Guid { value: VIRTUAL_DISK_ID } },
        )
    } else if virtual_disk_size_of(entries)->0 % (logical_sector_size_of(
        entries,
    )->0.spec_bytes() as u64) != 0 {
        Some(
            VhdxError::BadAlignment {
                offset: last_item(entries, MDKnownItems::VirtualDiskSize)->0.offset as u64,
                field: AlignedField::VirtualDiskSize,
                value: virtual_disk_size_of(entries)->0,
            },
        )
    } else if geometry_among(entries) is None {
        Some(
            VhdxError::BadGeometry {
                offset: last_item(entries, MDKnownItems::FileParamaters)->0.offset as u64,
            },
        )
    } else {
        None
    }
}

/// What `entries` say of the disk, where `bundle_failure` finds no fault.
pub open spec fn bundle_of(entries: Seq<Entry>) -> Bundle {
    Bundle {
        file_parameters: file_parameters_of(entries)->0,
        virtual_disk_size: virtual_disk_size_of(entries)->0,
        virtual_disk_id: virtual_disk_id_of(entries)->0,
        logical_sector_size: logical_sector_size_of(entries)->0,
        physical_sector_size: physical_sector_size_of(entries)->0,
        geometry: geometry_among(entries)->0,
    }
}

/// Gathers from the entries of the metadata table what they say of the disk.
pub fn resolve_bundle(entries: &Vec<Entry>) -> (r: Result<Bundle, VhdxError>)
    ensures
        match r {
            Ok(bundle) => bundle_failure(entries@) is None && bundle == bundle_of(entries@),
            Err(e) => bundle_failure(entries@) == Some(e),
        },
{
    let file_parameters_entry = find_item(entries, MDKnownItems::FileParamaters);
    let file_parameters = match file_parameters_entry {
        Some(Entry { data: Some(MDKnownEntries::FileParameters(p)), .. }) => p,
        _ => {
            return Err(
                VhdxError::MissingRequiredMetadata {
                    offset: 0,
                    item: Guid { value: FILE_PARAMETERS },
                },
            );
        },
    };
    let virtual_disk_size_entry = find_item(entries, MDKnownItems::VirtualDiskSize);
    let virtual_disk_size = match virtual_disk_size_entry {
        Some(Entry { data: Some(MDKnownEntries::VirtualDiskSize(v)), .. }) => v,
        _ => {
            return Err(
                VhdxError::MissingRequiredMetadata {
                    offset: 0,
                    item: Guid { value: VIRTUAL_DISK_SIZE },
                },
            );
        },
    };
    let logical_sector_size = match find_item(entries, MDKnownItems::LogicalSectorSize) {
        Some(Entry { data: Some(MDKnownEntries::LogicalSectorSize(s)), .. }) => s,
        _ => {
            return Err(
                VhdxError::MissingRequiredMetadata {
                    offset: 0,
                    item: Guid { value: LOGICAL_SECTOR_SIZE },
                },
            );
        },
    };
    let physical_sector_size = match find_item(entries, MDKnownItems::PhysicalSectorSize) {
        Some(Entry { data: Some(MDKnownEntries::PhysicalSectorSize(s)), .. }) => s,
        _ => {
            return Err(
                VhdxError::MissingRequiredMetadata {
                    offset: 0,
                    item: Guid { value: PHYSICAL_SECTOR_SIZE },
                },
            );
        },
    };
    let virtual_disk_id = match find_item(entries, MDKnownItems::VirtualDiskId) {
        Some(Entry { data: Some(MDKnownEntries::VirtualDiskID(g)), .. }) => g,
        _ => {
            return Err(
                VhdxError::MissingRequiredMetadata {
                    offset: 0,
                    item: Guid { value: VIRTUAL_DISK_ID },
                },
            );
        },
    };
    if virtual_disk_size % (logical_sector_size.bytes() as u64) != 0 {
        return Err(
            VhdxError::BadAlignment {
                offset: match virtual_disk_size_entry {
                    Some(e) => e.offset as u64,
                    None => 0,
                },
                field: AlignedField::VirtualDiskSize,
                value: virtual_disk_size,
            },
        );
    }
    match compute_geometry(logical_sector_size, file_parameters.block_size as u64, virtual_disk_size) {
        Some(geometry) => Ok(
            Bundle {
                file_parameters,
                virtual_disk_size,
                virtual_disk_id,
                logical_sector_size,
                physical_sector_size,
                geometry,
            },
        ),
        None => Err(
            VhdxError::BadGeometry {
                offset: match file_parameters_entry {
                    Some(e) => e.offset as u64,
                    None => 0,
                },
            },
        ),
    }
}

/// The metadata of the disk: the entries of the metadata table, what they say
/// of the disk, and the numbers that size the BAT.
#[derive(Debug)]
pub struct MetaData {
    /// `metadata` in a metadata table.
    pub signature: Signature,
    /// The number of entries of the table, at most 2047.
    pub entry_count: u16,
    pub file_parameters: FileParameters,
    pub virtual_disk_size: u64,
    pub virtual_disk_id: Guid,
    pub logical_sector_size: SectorSize,
    pub physical_sector_size: SectorSize,
    pub chunk_ratio: u64,
    pub payload_blocks_count: u64,
    pub sector_bitmaps_blocks_count: u64,
    pub total_bat_entries_fixed_dynamic: u64,
    pub total_bat_entries_differencing: u64,
    /// Every entry of the table, in the order of the table.
    pub entries: Vec<Entry>,
}

/// The first failure met when the metadata region is decoded: that of the
/// table, or else that of what the entries say of the disk.
pub open spec fn metadata_failure(region: Seq<u8>, entries: Seq<Entry>) -> Option<VhdxError> {
    if table_failure(region) is Some {
        table_failure(region)
    } else {
        bundle_failure(entries)
    }
}

/// Whether `entries` are the entries of the metadata table of `region`.
pub open spec fn entries_decoded_from(entries: Seq<Entry>, region: Seq<u8>) -> bool {
    &&& entries.len() == entry_count_of(region)
    &&& forall|k: int|
        0 <= k < entries.len() ==> Ok::<Entry, VhdxError>(#[trigger] entries[k]) == entry_outcome(
            region,
            k,
        )
}

/// The entries of the metadata table of `region`, where every entry decodes.
pub open spec fn entries_of(region: Seq<u8>) -> Seq<Entry> {
    Seq::new(entry_count_of(region) as nat, |k: int| entry_outcome(region, k)->Ok_0)
}

impl MetaData {
    /// Whether `self` is the metadata that the region `region` holds.
    pub open spec fn spec_decoded_from(&self, region: Seq<u8>) -> bool {
        let bundle = bundle_of(self.entries@);
        &&& self.signature == Signature::MetaData
        &&& self.entry_count == entry_count_of(region)
        &&& self.entries@ == entries_of(region)
        &&& self.file_parameters == bundle.file_parameters
        &&& self.virtual_disk_size == bundle.virtual_disk_size
        &&& self.virtual_disk_id == bundle.virtual_disk_id
        &&& self.logical_sector_size == bundle.logical_sector_size
        &&& self.physical_sector_size == bundle.physical_sector_size
        &&& self.chunk_ratio == bundle.geometry.chunk_ratio
        &&& self.payload_blocks_count == bundle.geometry.payload_blocks_count
        &&& self.sector_bitmaps_blocks_count == bundle.geometry.sector_bitmaps_blocks_count
        &&& self.total_bat_entries_fixed_dynamic == bundle.geometry.total_bat_entries_fixed_dynamic
        &&& self.total_bat_entries_differencing == bundle.geometry.total_bat_entries_differencing
    }

    /// The number of entries of the BAT: that of a differencing disk if the
    /// disk has a parent, that of a fixed or dynamic disk if not.
    pub open spec fn spec_total_bat_entries(&self) -> u64 {
        if self.file_parameters.has_parent {
            self.total_bat_entries_differencing
        } else {
            self.total_bat_entries_fixed_dynamic
        }
    }

    /// Builds the metadata from its fields.
    pub fn new(
        signature: Signature,
        entry_count: u16,
        entries: Vec<Entry>,
        file_parameters: FileParameters,
        virtual_disk_size: u64,
        virtual_disk_id: Guid,
        logical_sector_size: SectorSize,
        physical_sector_size: SectorSize,
        chunk_ratio: u64,
        payload_blocks_count: u64,
        sector_bitmaps_blocks_count: u64,
        total_bat_entries_fixed_dynamic: u64,
        total_bat_entries_differencing: u64,
    ) -> (m: MetaData)
        ensures
            m.signature == signature,
            m.entry_count == entry_count,
            m.entries == entries,
            m.file_parameters == file_parameters,
            m.virtual_disk_size == virtual_disk_size,
            m.virtual_disk_id == virtual_disk_id,
            m.logical_sector_size == logical_sector_size,
            m.physical_sector_size == physical_sector_size,
            m.chunk_ratio == chunk_ratio,
            m.payload_blocks_count == payload_blocks_count,
            m.sector_bitmaps_blocks_count == sector_bitmaps_blocks_count,
            m.total_bat_entries_fixed_dynamic == total_bat_entries_fixed_dynamic,
            m.total_bat_entries_differencing == total_bat_entries_differencing,
    {
        MetaData {
            signature,
            entry_count,
            file_parameters,
            virtual_disk_size,
            virtual_disk_id,
            logical_sector_size,
            physical_sector_size,
            chunk_ratio,
            payload_blocks_count,
            sector_bitmaps_blocks_count,
            total_bat_entries_fixed_dynamic,
            total_bat_entries_differencing,
            entries,
        }
    }

    /// The number of entries of the BAT.
    pub fn total_bat_entries(&self) -> (n: u64)
        ensures
            n == self.spec_total_bat_entries(),
    {
        if self.file_parameters.has_parent {
            self.total_bat_entries_differencing
        } else {
            self.total_bat_entries_fixed_dynamic
        }
    }
}

/// In metadata that decodes, every entry of the table is accounted for: the
/// metadata hold as many entries as the table announces, each with the
/// identifier, place and flags that the table gives it. An entry whose item
/// is known carries the typed value of the item; an entry whose item is not
/// known is not required and carries no value.
pub proof fn lemma_dispatch_is_exhaustive(region: Seq<u8>, m: MetaData, k: int)
    requires
        MetaData::decodes_to(region, Ok(m)),
        0 <= k < entry_count_of(region),
    ensures
        m.entries@.len() == entry_count_of(region),
        m.entries@[k] == (Entry { data: m.entries@[k].data, ..descriptor_of(region, k) }),
        match MDKnownItems::spec_from_guid(m.entries@[k].item_id.value) {
            Some(kind) => m.entries@[k].data matches Some(value) && payload_outcome(
                region,
                kind,
                m.entries@[k].offset as int,
                m.entries@[k].length as int,
            ) == Ok::<_, VhdxError>(value),
            None => !m.entries@[k].is_required && m.entries@[k].data is None,
        },
{
    lemma_no_failure(entry_failures(region), 0, entry_count_of(region), k);
    assert(entry_failures(region)(k) == entry_failure(region, k));
}

/// Reads the fixed part of the metadata table: the signature and the number
/// of entries.
pub fn parse_header(region: &[u8]) -> (r: (Signature, u16))
    requires
        region.len() >= 32,
    ensures
        r.0 == sign_u64_of(region@),
        r.1 == entry_count_of(region@),
{
    (classify_sign_u64(region), read_u16(region, 10))
}

impl DeSerialise for MetaData {
    /// The bytes of the metadata region decode to the metadata they hold, or
    /// to the first failure.
    open spec fn decodes_to(bytes: Seq<u8>, r: Result<Self, VhdxError>) -> bool {
        match r {
            Ok(m) => metadata_failure(bytes, entries_of(bytes)) is None && m.spec_decoded_from(
                bytes,
            ),
            Err(e) => metadata_failure(bytes, entries_of(bytes)) == Some(e),
        }
    }

    fn deserialize(bytes: &[u8]) -> (r: Result<Self, VhdxError>) {
        if bytes.len() < MD_HEADER_SIZE {
            return Err(VhdxError::Io { offset: bytes.len() as u64 });
        }
        let (signature, entry_count) = parse_header(bytes);
        if signature != Signature::MetaData {
            return Err(
                VhdxError::BadMagic { offset: 0, expected: Signature::MetaData, got: signature },
            );
        }
        if entry_count > MD_MAX_ENTRIES {
            return Err(VhdxError::BadEntryCount { offset: 10, count: entry_count as u32 });
        }
        let count = entry_count as usize;
        if bytes.len() < MD_HEADER_SIZE + MD_ENTRY_SIZE * count {
            return Err(VhdxError::Io { offset: bytes.len() as u64 });
        }
        let ghost f = entry_failures(bytes@);
        let mut entries: Vec<Entry> = Vec::new();
        let mut k: usize = 0;
        while k < count
            invariant
                k <= count <= 2047,
                count == entry_count_of(bytes@),
                md_entry_at(count as int) <= bytes.len(),
                sign_u64_of(bytes@) == Signature::MetaData,
                f == entry_failures(bytes@),
                first_failure(f, 0, count as int) == first_failure(f, k as int, count as int),
                entries@.len() == k,
                forall|j: int|
                    0 <= j < k ==> Ok::<Entry, VhdxError>(#[trigger] entries@[j]) == entry_outcome(
                        bytes@,
                        j,
                    ),
            decreases count - k,
        {
            assert(f(k as int) == entry_failure(bytes@, k as int));
            match parse_entry(bytes, k) {
                Ok(entry) => {
                    entries.push(entry);
                },
                Err(e) => {
                    return Err(e);
                },
            }
            k += 1;
        }
        assert(entries@ =~= entries_of(bytes@));
        let bundle = match resolve_bundle(&entries) {
            Ok(bundle) => bundle,
            Err(e) => {
                return Err(e);
            },
        };
        Ok(
            MetaData::new(
                signature,
                entry_count,
                entries,
                bundle.file_parameters,
                bundle.virtual_disk_size,
                bundle.virtual_disk_id,
                bundle.logical_sector_size,
                bundle.physical_sector_size,
                bundle.geometry.chunk_ratio,
                bundle.geometry.payload_blocks_count,
                bundle.geometry.sector_bitmaps_blocks_count,
                bundle.geometry.total_bat_entries_fixed_dynamic,
                bundle.geometry.total_bat_entries_differencing,
            ),
        )
    }
}

} // verus!
