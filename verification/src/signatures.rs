//! The ASCII magic values that tag the on-disk structures.

use vstd::prelude::*;

verus! {

/// The structure that a magic value announces.
#[derive(Debug, Eq, PartialEq, Copy, Clone, Structural)]
pub enum Signature {
    /// `vhdxfile`, the file-type identifier.
    Vhdxfile,
    /// `head`, a header.
    Head,
    /// `regi`, a region table.
    Regi,
    /// `loge`, a log entry.
    Loge,
    /// `zero`, a zero descriptor.
    Zero,
    /// `data`, a data sector.
    Data,
    /// `desc`, a data descriptor.
    Desc,
    /// `metadata`, the metadata table.
    MetaData,
    /// Anything else.
    Unknown,
}

/// The BAT region, `2DC27766-F623-4200-9D64-115E9BFD4A08`.
pub const BAT_ENTRY: u128 = 0x2DC27766_F623_4200_9D64_115E9BFD4A08;

/// The metadata region, `8B7CA206-4790-4B9A-B8FE-575F050F886E`.
pub const META_DATA_ENTRY: u128 = 0x8B7CA206_4790_4B9A_B8FE_575F050F886E;

/// The file parameters item, `CAA16737-FA36-4D43-B3B6-33F0AA44E76B`.
pub const FILE_PARAMETERS: u128 = 0xCAA16737_FA36_4D43_B3B6_33F0AA44E76B;

/// The virtual disk size item, `2FA54224-CD1B-4876-B211-5DBED83BF4B8`.
pub const VIRTUAL_DISK_SIZE: u128 = 0x2FA54224_CD1B_4876_B211_5DBED83BF4B8;

/// The virtual disk identifier item, `BECA12AB-B2E6-4523-93EF-C309E000C746`.
pub const VIRTUAL_DISK_ID: u128 = 0xBECA12AB_B2E6_4523_93EF_C309E000C746;

/// The logical sector size item, `8141BF1D-A96F-4709-BA47-F233A8FAAB5F`.
pub const LOGICAL_SECTOR_SIZE: u128 = 0x8141BF1D_A96F_4709_BA47_F233A8FAAB5F;

/// The physical sector size item, `CDA348C7-445D-4471-9CC9-E9885251C556`.
pub const PHYSICAL_SECTOR_SIZE: u128 = 0xCDA348C7_445D_4471_9CC9_E9885251C556;

/// The parent locator item, `A8D35F2D-B30B-454D-ABF7-D3D84834AB0C`.
pub const PARENT_LOCATOR: u128 = 0xA8D35F2D_B30B_454D_ABF7_D3D84834AB0C;

/// The metadata items that this reader knows.
#[derive(Debug, Eq, PartialEq, Copy, Clone, Structural)]
pub enum MDKnownItems {
    FileParamaters,
    VirtualDiskSize,
    VirtualDiskId,
    LogicalSectorSize,
    PhysicalSectorSize,
    ParentLocator,
}

impl MDKnownItems {
    /// The identifier of the item.
    pub open spec fn spec_guid(self) -> u128 {
        match self {
            MDKnownItems::FileParamaters => FILE_PARAMETERS,
            MDKnownItems::VirtualDiskSize => VIRTUAL_DISK_SIZE,
            MDKnownItems::VirtualDiskId => VIRTUAL_DISK_ID,
            MDKnownItems::LogicalSectorSize => LOGICAL_SECTOR_SIZE,
            MDKnownItems::PhysicalSectorSize => PHYSICAL_SECTOR_SIZE,
            MDKnownItems::ParentLocator => PARENT_LOCATOR,
        }
    }

    /// The known item with the identifier `value`, if there is one.
    pub open spec fn spec_from_guid(value: u128) -> Option<MDKnownItems> {
        if value == FILE_PARAMETERS {
            Some(MDKnownItems::FileParamaters)
        } else if value == VIRTUAL_DISK_SIZE {
            Some(MDKnownItems::VirtualDiskSize)
        } else if value == VIRTUAL_DISK_ID {
            Some(MDKnownItems::VirtualDiskId)
        } else if value == LOGICAL_SECTOR_SIZE {
            Some(MDKnownItems::LogicalSectorSize)
        } else if value == PHYSICAL_SECTOR_SIZE {
            Some(MDKnownItems::PhysicalSectorSize)
        } else if value == PARENT_LOCATOR {
            Some(MDKnownItems::ParentLocator)
        } else {
            None
        }
    }

    /// The identifier of the item.
    pub fn guid(&self) -> (value: u128)
        ensures
            value == self.spec_guid(),
    {
        match self {
            MDKnownItems::FileParamaters => FILE_PARAMETERS,
            MDKnownItems::VirtualDiskSize => VIRTUAL_DISK_SIZE,
            MDKnownItems::VirtualDiskId => VIRTUAL_DISK_ID,
            MDKnownItems::LogicalSectorSize => LOGICAL_SECTOR_SIZE,
            MDKnownItems::PhysicalSectorSize => PHYSICAL_SECTOR_SIZE,
            MDKnownItems::ParentLocator => PARENT_LOCATOR,
        }
    }

    /// The known item with the identifier `value`, if there is one.
    pub fn from_guid(value: u128) -> (r: Option<MDKnownItems>)
        ensures
            r == MDKnownItems::spec_from_guid(value),
    {
        if value == FILE_PARAMETERS {
            Some(MDKnownItems::FileParamaters)
        } else if value == VIRTUAL_DISK_SIZE {
            Some(MDKnownItems::VirtualDiskSize)
        } else if value == VIRTUAL_DISK_ID {
            Some(MDKnownItems::VirtualDiskId)
        } else if value == LOGICAL_SECTOR_SIZE {
            Some(MDKnownItems::LogicalSectorSize)
        } else if value == PHYSICAL_SECTOR_SIZE {
            Some(MDKnownItems::PhysicalSectorSize)
        } else if value == PARENT_LOCATOR {
            Some(MDKnownItems::ParentLocator)
        } else {
            None
        }
    }
}

/// `b` starts with the four bytes `c0 c1 c2 c3`.
pub open spec fn starts_with4(b: Seq<u8>, c0: u8, c1: u8, c2: u8, c3: u8) -> bool {
    b.len() >= 4 && b[0] == c0 && b[1] == c1 && b[2] == c2 && b[3] == c3
}

/// `b` starts with the eight bytes `c0 .. c7`.
pub open spec fn starts_with8(
    b: Seq<u8>,
    c0: u8,
    c1: u8,
    c2: u8,
    c3: u8,
    c4: u8,
    c5: u8,
    c6: u8,
    c7: u8,
) -> bool {
    b.len() >= 8 && starts_with4(b, c0, c1, c2, c3) && b[4] == c4 && b[5] == c5 && b[6] == c6
        && b[7] == c7
}

/// The signature that the first four bytes of `b` spell.
pub open spec fn sign_u32_of(b: Seq<u8>) -> Signature {
    if starts_with4(b, 0x68, 0x65, 0x61, 0x64) {
        Signature::Head  // "head"
    } else if starts_with4(b, 0x72, 0x65, 0x67, 0x69) {
        Signature::Regi  // "regi"
    } else if starts_with4(b, 0x64, 0x65, 0x73, 0x63) {
        Signature::Desc  // "desc"
    } else if starts_with4(b, 0x7A, 0x65, 0x72, 0x6F) {
        Signature::Zero  // "zero"
    } else if starts_with4(b, 0x64, 0x61, 0x74, 0x61) {
        Signature::Data  // "data"
    } else if starts_with4(b, 0x6C, 0x6F, 0x67, 0x65) {
        Signature::Loge  // "loge"
    } else {
        Signature::Unknown
    }
}

/// The signature that the first eight bytes of `b` spell.
pub open spec fn sign_u64_of(b: Seq<u8>) -> Signature {
    if starts_with8(b, 0x76, 0x68, 0x64, 0x78, 0x66, 0x69, 0x6C, 0x65) {
        Signature::Vhdxfile  // "vhdxfile"
    } else if starts_with8(b, 0x6D, 0x65, 0x74, 0x61, 0x64, 0x61, 0x74, 0x61) {
        Signature::MetaData  // "metadata"
    } else {
        Signature::Unknown
    }
}

/// Classifies the four bytes at the start of `b`.
pub fn classify_sign_u32(b: &[u8]) -> (s: Signature)
    requires
        b.len() >= 4,
    ensures
        s == sign_u32_of(b@),
{
    let (c0, c1, c2, c3) = (b[0], b[1], b[2], b[3]);
    if c0 == 0x68 && c1 == 0x65 && c2 == 0x61 && c3 == 0x64 {
        Signature::Head
    } else if c0 == 0x72 && c1 == 0x65 && c2 == 0x67 && c3 == 0x69 {
        Signature::Regi
    } else if c0 == 0x64 && c1 == 0x65 && c2 == 0x73 && c3 == 0x63 {
        Signature::Desc
    } else if c0 == 0x7A && c1 == 0x65 && c2 == 0x72 && c3 == 0x6F {
        Signature::Zero
    } else if c0 == 0x64 && c1 == 0x61 && c2 == 0x74 && c3 == 0x61 {
        Signature::Data
    } else if c0 == 0x6C && c1 == 0x6F && c2 == 0x67 && c3 == 0x65 {
        Signature::Loge
    } else {
        Signature::Unknown
    }
}

/// Classifies the eight bytes at the start of `b`.
pub fn classify_sign_u64(b: &[u8]) -> (s: Signature)
    requires
        b.len() >= 8,
    ensures
        s == sign_u64_of(b@),
{
    let (c0, c1, c2, c3) = (b[0], b[1], b[2], b[3]);
    let (c4, c5, c6, c7) = (b[4], b[5], b[6], b[7]);
    if c0 == 0x76 && c1 == 0x68 && c2 == 0x64 && c3 == 0x78 && c4 == 0x66 && c5 == 0x69 && c6
        == 0x6C && c7 == 0x65 {
        Signature::Vhdxfile
    } else if c0 == 0x6D && c1 == 0x65 && c2 == 0x74 && c3 == 0x61 && c4 == 0x64 && c5 == 0x61
        && c6 == 0x74 && c7 == 0x61 {
        Signature::MetaData
    } else {
        Signature::Unknown
    }
}

} // verus!
