//! The container: everything that an open of a VHDX file decodes.

use crate::bat::bat_entries_of;
use crate::bat::bat_failure;
use crate::bat::BatEntry;
use crate::bat::BatTable;
use crate::error::VhdxError;
use crate::log::active_sequence;
use crate::log::try_get_log_sequence;
use crate::log::Log;
use crate::log::LogSequence;
use crate::log_entry::scan_failure;
use crate::meta_data::bundle_of;
use crate::meta_data::entries_of;
use crate::meta_data::metadata_failure;
use crate::meta_data::MetaData;
use crate::guid::Guid;
use crate::region_table::table_entries_of;
use crate::region_table::find_region;
use crate::region_table::KnowRegion;
use crate::region_table::RTEntry;
use crate::region_table::RegionTable;
use crate::signatures::BAT_ENTRY;
use crate::signatures::META_DATA_ENTRY;
use crate::vhdx_header::current_header_of;
use crate::vhdx_header::get_current_header;
use crate::vhdx_header::main_header_failure;
use crate::vhdx_header::rebased_failure;
use crate::vhdx_header::slot_of;
use crate::vhdx_header::Header;
use crate::vhdx_header::MainHeader;
use crate::DeSerialise;
use vstd::prelude::*;
use vstd::slice::slice_subrange;

verus! {

/// An open VHDX file: the five structures at its start, the number of the
/// current header, the entries of the log and the sequence to replay, the
/// metadata, and the BAT.
#[derive(Debug)]
pub struct Vhdx {
    pub header: MainHeader,
    /// The number of the current header, 1 or 2.
    pub current_header: u32,
    pub log: Log,
    /// The sequence of log entries to replay; empty when there is none.
    pub active_sequence: LogSequence,
    pub meta_data: MetaData,
    pub bat_table: Vec<BatEntry>,
}

/// The part of `file` that begins at `offset` and is `length` bytes long, if
/// the file holds all of it.
pub open spec fn region_of(file: Seq<u8>, offset: int, length: int) -> Option<Seq<u8>> {
    if offset + length <= file.len() {
        Some(file.subrange(offset, offset + length))
    } else {
        None
    }
}

/// Takes a region out of `file`.
pub fn region_slice(file: &[u8], offset: u64, length: u64) -> (r: Option<&[u8]>)
    ensures
        match r {
            Some(s) => region_of(file@, offset as int, length as int) == Some(s@),
            None => region_of(file@, offset as int, length as int) is None,
        },
{
    let len = file.len() as u64;
    if length > len || offset > len - length {
        None
    } else {
        Some(slice_subrange(file, offset as usize, (offset + length) as usize))
    }
}

/// The first header of `file`.
pub open spec fn header_1_of(file: Seq<u8>) -> Header {
    Header::spec_parse(slot_of(file, 0x1_0000))
}

/// The second header of `file`.
pub open spec fn header_2_of(file: Seq<u8>) -> Header {
    Header::spec_parse(slot_of(file, 0x2_0000))
}

/// The number of the current header of `file`, if it has one.
pub open spec fn current_number_of(file: Seq<u8>) -> Option<u32> {
    current_header_of(header_1_of(file), header_2_of(file))
}

/// The current header of `file`.
pub open spec fn current_of(file: Seq<u8>) -> Header {
    if current_number_of(file) == Some(2u32) {
        header_2_of(file)
    } else {
        header_1_of(file)
    }
}

/// Where the slot of the current header begins.
pub open spec fn current_base_of(file: Seq<u8>) -> u64 {
    if current_number_of(file) == Some(2u32) {
        0x2_0000
    } else {
        0x1_0000
    }
}

/// Where the slot of the region table begins that goes with the current
/// header: the first table with the first header, the second with the second.
pub open spec fn table_base_of(file: Seq<u8>) -> u64 {
    if current_number_of(file) == Some(2u32) {
        0x4_0000
    } else {
        0x3_0000
    }
}

/// The entry that locates `region` in the region table that goes with the
/// current header.
pub open spec fn located(file: Seq<u8>, region: KnowRegion) -> Option<RTEntry> {
    find_region(table_entries_of(slot_of(file, table_base_of(file) as int)), region)
}

/// The bytes of the log region of `file`.
pub open spec fn log_region_of(file: Seq<u8>) -> Option<Seq<u8>> {
    region_of(file, current_of(file).log_offset as int, current_of(file).log_length as int)
}

/// The bytes of the region of `file` that `region` names.
pub open spec fn known_region_of(file: Seq<u8>, region: KnowRegion) -> Option<Seq<u8>> {
    region_of(
        file,
        located(file, region)->0.file_offset as int,
        located(file, region)->0.length as int,
    )
}

/// The failure of the scan of the log, if the log is scanned and the scan
/// fails: under the nil log GUID the log is not read.
pub open spec fn log_failure(file: Seq<u8>) -> Option<VhdxError> {
    if current_of(file).log_guid.spec_is_nil() {
        None
    } else if log_region_of(file) is None {
        Some(VhdxError::Io { offset: file.len() as u64 })
    } else {
        rebased_failure(scan_failure(log_region_of(file)->0, 0), current_of(file).log_offset)
    }
}

/// The number of entries of the BAT of `file`, as its metadata give it.
pub open spec fn total_bat_entries_of(file: Seq<u8>) -> u64 {
    let bundle = bundle_of(entries_of(known_region_of(file, KnowRegion::MetaData)->0));
    if bundle.file_parameters.has_parent {
        bundle.geometry.total_bat_entries_differencing
    } else {
        bundle.geometry.total_bat_entries_fixed_dynamic
    }
}

/// The first failure met when `file` is opened, with its offset counted from
/// the start of the file. The steps are taken once each, in this order: the
/// five structures at the start; the choice of the current header and the
/// rules that it must keep; the scan of the log; the places of metadata
/// region and BAT in the region table; the metadata; the BAT.
pub open spec fn vhdx_failure(file: Seq<u8>) -> Option<VhdxError> {
    let metadata = known_region_of(file, KnowRegion::MetaData);
    let bat = known_region_of(file, KnowRegion::Bat);
    if main_header_failure(file) is Some {
        main_header_failure(file)
    } else if current_number_of(file) is None {
        Some(VhdxError::NoValidHeader { offset: 0x1_0000 })
    } else if current_of(file).spec_validate() is Some {
        rebased_failure(current_of(file).spec_validate(), current_base_of(file))
    } else if log_failure(file) is Some {
        log_failure(file)
    } else if located(file, KnowRegion::MetaData) is None {
        Some(
            VhdxError::MissingKnownRegion {
                offset: table_base_of(file),
                guid: Guid { value: META_DATA_ENTRY },
            },
        )
    } else if located(file, KnowRegion::Bat) is None {
        Some(
            VhdxError::MissingKnownRegion {
                offset: table_base_of(file),
                guid: Guid { value: BAT_ENTRY },
            },
        )
    } else if metadata is None {
        Some(VhdxError::Io { offset: file.len() as u64 })
    } else if metadata_failure(metadata->0, entries_of(metadata->0)) is Some {
        rebased_failure(
            metadata_failure(metadata->0, entries_of(metadata->0)),
            located(file, KnowRegion::MetaData)->0.file_offset,
        )
    } else if bat is None {
        Some(VhdxError::Io { offset: file.len() as u64 })
    } else {
        rebased_failure(
            bat_failure(bat->0, total_bat_entries_of(file), file.len() as u64),
            located(file, KnowRegion::Bat)->0.file_offset,
        )
    }
}

impl Vhdx {
    /// Whether `self` is what an open of `file` decodes.
    pub open spec fn spec_assembled_from(&self, file: Seq<u8>) -> bool {
        &&& self.header.spec_decoded_from(file)
        &&& Some(self.current_header) == current_number_of(file)
        &&& if current_of(file).log_guid.spec_is_nil() {
            self.log.log_entries@.len() == 0
        } else {
            self.log.spec_scanned_from(log_region_of(file)->0)
        }
        &&& self.active_sequence == active_sequence(
            self.log.log_entries@,
            current_of(file).log_guid,
        )
        &&& self.meta_data.spec_decoded_from(known_region_of(file, KnowRegion::MetaData)->0)
        &&& self.bat_table@ == bat_entries_of(
            known_region_of(file, KnowRegion::Bat)->0,
            total_bat_entries_of(file),
        )
    }

    /// The current header.
    pub open spec fn spec_header(&self) -> Header {
        if self.current_header == 2 {
            self.header.header_2
        } else {
            self.header.header_1
        }
    }

    /// Opens the VHDX file whose bytes are `file`: decodes the structures at
    /// its start, chooses the current header, scans the log and chooses the
    /// sequence to replay, and decodes metadata and BAT. The first failure
    /// ends the open.
    pub fn new(file: &[u8]) -> (r: Result<Vhdx, VhdxError>)
        ensures
            match r {
                Ok(vhdx) => vhdx_failure(file@) is None && vhdx.spec_assembled_from(file@),
                Err(e) => vhdx_failure(file@) == Some(e),
            },
    {
        let header = match MainHeader::deserialize(file) {
            Ok(header) => header,
            Err(e) => {
                return Err(e);
            },
        };
        let (number, current) = match get_current_header(&header.header_1, &header.header_2) {
            Ok((number, current)) => (number, *current),
            Err(e) => {
                return Err(e.rebased(0x1_0000));
            },
        };
        let current_base: u64 = if number == 2 {
            0x2_0000
        } else {
            0x1_0000
        };
        match current.validate() {
            Ok(_) => {},
            Err(e) => {
                return Err(e.rebased(current_base));
            },
        }
        let log = if current.log_guid.is_nil() {
            Log::new(Vec::new())
        } else {
            match region_slice(file, current.log_offset, current.log_length as u64) {
                None => {
                    return Err(VhdxError::Io { offset: file.len() as u64 });
                },
                Some(region) => match Log::deserialize(region) {
                    Ok(log) => log,
                    Err(e) => {
                        return Err(e.rebased(current.log_offset));
                    },
                },
            }
        };
        let active_sequence = match try_get_log_sequence(&log.log_entries, current.log_guid) {
            Ok(sequence) => sequence,
            Err(e) => {
                return Err(e);
            },
        };
        let (table, table_base): (&RegionTable, u64) = if number == 2 {
            (&header.region_table_2, 0x4_0000)
        } else {
            (&header.region_table_1, 0x3_0000)
        };
        let metadata_entry = match table.find(KnowRegion::MetaData) {
            Some(entry) => entry,
            None => {
                return Err(
                    VhdxError::MissingKnownRegion {
                        offset: table_base,
                        guid: Guid { value: META_DATA_ENTRY },
                    },
                );
            },
        };
        let bat_entry = match table.find(KnowRegion::Bat) {
            Some(entry) => entry,
            None => {
                return Err(
                    VhdxError::MissingKnownRegion {
                        offset: table_base,
                        guid: Guid { value: BAT_ENTRY },
                    },
                );
            },
        };
        let meta_data = match region_slice(
            file,
            metadata_entry.file_offset,
            metadata_entry.length as u64,
        ) {
            None => {
                return Err(VhdxError::Io { offset: file.len() as u64 });
            },
            Some(region) => match MetaData::deserialize(region) {
                Ok(meta_data) => meta_data,
                Err(e) => {
                    return Err(e.rebased(metadata_entry.file_offset));
                },
            },
        };
        let bat_table = match region_slice(file, bat_entry.file_offset, bat_entry.length as u64) {
            None => {
                return Err(VhdxError::Io { offset: file.len() as u64 });
            },
            Some(region) => match BatTable::deserialize(
                region,
                meta_data.total_bat_entries(),
                file.len() as u64,
            ) {
                Ok(table) => table.entries,
                Err(e) => {
                    return Err(e.rebased(bat_entry.file_offset));
                },
            },
        };
        Ok(Vhdx { header, current_header: number, log, active_sequence, meta_data, bat_table })
    }

    /// The sequence of log entries that a replay would apply, chosen anew
    /// from the entries of the log. Nothing is written.
    pub fn try_log_replay(&self) -> (r: Result<LogSequence, VhdxError>)
        ensures
            r == Ok::<_, VhdxError>(
                active_sequence(self.log.log_entries@, self.spec_header().log_guid),
            ),
    {
        try_get_log_sequence(&self.log.log_entries, self.header().log_guid)
    }

    /// The current header.
    pub fn header(&self) -> (h: &Header)
        ensures
            *h == self.spec_header(),
    {
        if self.current_header == 2 {
            &self.header.header_2
        } else {
            &self.header.header_1
        }
    }
}

} // verus!
