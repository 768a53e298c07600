use uuid::Uuid;
use vhdx::bat::BatEntryState;
use vhdx::error::VhdxError;
use vhdx::guid::Guid;
use vhdx::log::LogSequence;
use vhdx::meta_data::SectorSize;
use vhdx::vhdx::region_slice;
use vhdx::vhdx::Vhdx;
use vhdx::vhdx_header::slot;
use vhdx::Signature;

const SLOT: usize = 65536;
const MIB: usize = 1024 * 1024;
const GIB: u64 = 1024 * 1024 * 1024;
const NIL: &str = "00000000-0000-0000-0000-000000000000";
const G: &str = "dd460a02-1db4-4d13-ad70-dc3093afd5c2";
const BAT: &str = "2DC27766-F623-4200-9D64-115E9BFD4A08";
const METADATA: &str = "8B7CA206-4790-4B9A-B8FE-575F050F886E";

fn reference_crc(bytes: &[u8]) -> u32 {
    crc::Crc::<u32>::new(&crc::CRC_32_ISCSI).checksum(bytes)
}

fn seal(bytes: &mut [u8]) {
    bytes[4..8].copy_from_slice(&[0; 4]);
    let checksum = reference_crc(bytes);
    bytes[4..8].copy_from_slice(&checksum.to_le_bytes());
}

fn guid(text: &str) -> Guid {
    Guid { value: Uuid::parse_str(text).unwrap().as_u128() }
}

fn guid_bytes(text: &str) -> [u8; 16] {
    Uuid::parse_str(text).unwrap().to_bytes_le()
}

fn write_fti(file: &mut [u8]) {
    file[0..8].copy_from_slice(b"vhdxfile");
    for (k, unit) in "test".encode_utf16().enumerate() {
        file[8 + 2 * k..10 + 2 * k].copy_from_slice(&unit.to_le_bytes());
    }
}

fn write_header(file: &mut [u8], number: usize, seq_number: u64, log_guid: &str) {
    let slot = &mut file[number * SLOT..(number + 1) * SLOT];
    slot[0..4].copy_from_slice(b"head");
    slot[8..16].copy_from_slice(&seq_number.to_le_bytes());
    slot[48..64].copy_from_slice(&guid_bytes(log_guid));
    slot[66..68].copy_from_slice(&1u16.to_le_bytes());
    slot[68..72].copy_from_slice(&(MIB as u32).to_le_bytes());
    slot[72..80].copy_from_slice(&(MIB as u64).to_le_bytes());
    seal(&mut slot[0..4096]);
}

fn write_region_table(file: &mut [u8], number: usize, entries: &[(&str, u64, u32)]) {
    let slot = &mut file[(2 + number) * SLOT..(3 + number) * SLOT];
    for b in slot.iter_mut() {
        *b = 0;
    }
    slot[0..4].copy_from_slice(b"regi");
    slot[8..12].copy_from_slice(&(entries.len() as u32).to_le_bytes());
    for (k, (id, file_offset, length)) in entries.iter().enumerate() {
        let at = 16 + 32 * k;
        slot[at..at + 16].copy_from_slice(&guid_bytes(id));
        slot[at + 16..at + 24].copy_from_slice(&file_offset.to_le_bytes());
        slot[at + 24..at + 28].copy_from_slice(&length.to_le_bytes());
        slot[at + 28..at + 32].copy_from_slice(&1u32.to_le_bytes());
    }
    seal(slot);
}

fn write_metadata(file: &mut [u8], base: usize, block_size: u32, flags: u32, disk_size: u64, sector: u32) {
    let ids = [
        "CAA16737-FA36-4D43-B3B6-33F0AA44E76B",
        "2FA54224-CD1B-4876-B211-5DBED83BF4B8",
        "BECA12AB-B2E6-4523-93EF-C309E000C746",
        "8141BF1D-A96F-4709-BA47-F233A8FAAB5F",
        "CDA348C7-445D-4471-9CC9-E9885251C556",
    ];
    let mut block = block_size.to_le_bytes().to_vec();
    block.extend_from_slice(&flags.to_le_bytes());
    let values: [Vec<u8>; 5] = [
        block,
        disk_size.to_le_bytes().to_vec(),
        guid_bytes("0a1b2c3d-4e5f-6071-8293-a4b5c6d7e8f9").to_vec(),
        sector.to_le_bytes().to_vec(),
        sector.to_le_bytes().to_vec(),
    ];
    let region = &mut file[base..base + MIB];
    region[0..8].copy_from_slice(b"metadata");
    region[10..12].copy_from_slice(&5u16.to_le_bytes());
    for k in 0..5 {
        let at = 32 + 32 * k;
        let offset = 0x10000 + 32 * k;
        region[at..at + 16].copy_from_slice(&guid_bytes(ids[k]));
        region[at + 16..at + 20].copy_from_slice(&(offset as u32).to_le_bytes());
        region[at + 20..at + 24].copy_from_slice(&(values[k].len() as u32).to_le_bytes());
        region[at + 24] = 4;
        region[offset..offset + values[k].len()].copy_from_slice(&values[k]);
    }
}

fn log_entry(seq: u64, log_guid: &str) -> Vec<u8> {
    let mut bytes = vec![0u8; 4096];
    bytes[0..4].copy_from_slice(b"loge");
    bytes[8..12].copy_from_slice(&4096u32.to_le_bytes());
    bytes[16..24].copy_from_slice(&seq.to_le_bytes());
    bytes[32..48].copy_from_slice(&guid_bytes(log_guid));
    seal(&mut bytes);
    bytes
}

// Headers at 64 KiB and 128 KiB, region tables at 192 KiB and 256 KiB, the log
// at 1 MiB, the metadata at 2 MiB and the BAT at 3 MiB, each 1 MiB long.
fn minimal_file(log_guid: &str) -> Vec<u8> {
    let mut file = vec![0u8; 4 * MIB];
    write_fti(&mut file);
    write_header(&mut file, 1, 4, log_guid);
    write_header(&mut file, 2, 5, log_guid);
    let regions = [(BAT, 3 * MIB as u64, MIB as u32), (METADATA, 2 * MIB as u64, MIB as u32)];
    write_region_table(&mut file, 1, &regions);
    write_region_table(&mut file, 2, &regions);
    write_metadata(&mut file, 2 * MIB, 32 * MIB as u32, 0, GIB, 512);
    file
}

fn empty() -> LogSequence {
    LogSequence { sequence_number: 0, start: 0, len: 0, head_value: 0, tail_value: 0 }
}

#[test]
fn minimal_dynamic_disk_with_empty_log() {
    let file = minimal_file(NIL);
    let vhdx = Vhdx::new(&file).unwrap();
    assert_eq!(Signature::Vhdxfile, vhdx.header.fti.signature);
    assert_eq!("test", vhdx.header.fti.creator);
    assert_eq!(128, vhdx.meta_data.chunk_ratio);
    assert_eq!(32, vhdx.meta_data.payload_blocks_count);
    assert_eq!(32, vhdx.meta_data.total_bat_entries_fixed_dynamic);
    assert_eq!(32 * MIB, vhdx.meta_data.file_parameters.block_size);
    assert_eq!(GIB, vhdx.meta_data.virtual_disk_size);
    assert_eq!(SectorSize::Sector512, vhdx.meta_data.logical_sector_size);
    assert_eq!(SectorSize::Sector512, vhdx.meta_data.physical_sector_size);
    assert!(!vhdx.meta_data.file_parameters.has_parent);
    assert_eq!(empty(), vhdx.active_sequence);
    assert_eq!(0, vhdx.log.log_entries.len());
    assert_eq!(32, vhdx.bat_table.len());
    for entry in &vhdx.bat_table {
        assert_eq!(BatEntryState::NotPresent, entry.state);
    }
    assert_eq!(2, vhdx.current_header);
    assert_eq!(5, vhdx.header().seq_number);
    assert!(vhdx.header().log_guid.is_nil());
}

#[test]
fn the_log_is_not_read_under_the_nil_guid() {
    let mut file = minimal_file(NIL);
    file[MIB..MIB + 4096].copy_from_slice(&log_entry(3, NIL));
    file[MIB + 4096..MIB + 4100].copy_from_slice(b"loge");
    let vhdx = Vhdx::new(&file).unwrap();
    assert_eq!(0, vhdx.log.log_entries.len());
    assert_eq!(empty(), vhdx.active_sequence);
}

#[test]
fn the_log_is_scanned_and_a_sequence_chosen() {
    let mut file = minimal_file(G);
    for (k, seq) in [10u64, 11, 12, 99, 100].iter().enumerate() {
        let mut entry = log_entry(*seq, G);
        if *seq == 99 {
            entry[3000] ^= 1;
        }
        file[MIB + 4096 * k..MIB + 4096 * (k + 1)].copy_from_slice(&entry);
    }
    let vhdx = Vhdx::new(&file).unwrap();
    assert_eq!(5, vhdx.log.log_entries.len());
    assert_eq!(
        LogSequence { sequence_number: 10, start: 0, len: 3, head_value: 8192, tail_value: 0 },
        vhdx.active_sequence
    );
    assert_eq!(guid(G), vhdx.header().log_guid);
    assert_eq!(Ok(vhdx.active_sequence), vhdx.try_log_replay());
    let replayed = vhdx.active_sequence.entries(&vhdx.log.log_entries).unwrap();
    assert_eq!(vec![10, 11, 12], replayed.iter().map(|e| e.header.seq_number).collect::<Vec<_>>());
}

#[test]
fn the_header_with_the_higher_sequence_number_is_current() {
    let mut file = minimal_file(NIL);
    write_header(&mut file, 1, 4, NIL);
    write_header(&mut file, 2, 5, NIL);
    assert_eq!(2, Vhdx::new(&file).unwrap().current_header);
    write_header(&mut file, 1, 6, NIL);
    let vhdx = Vhdx::new(&file).unwrap();
    assert_eq!(1, vhdx.current_header);
    assert_eq!(6, vhdx.header().seq_number);
}

#[test]
fn a_corrupt_first_header_leaves_the_second() {
    let mut file = minimal_file(NIL);
    write_header(&mut file, 1, 9, NIL);
    file[SLOT + 200] ^= 1;
    let vhdx = Vhdx::new(&file).unwrap();
    assert_eq!(Signature::Head, vhdx.header.header_1.signature);
    assert_eq!(2, vhdx.current_header);
    assert_eq!(5, vhdx.header().seq_number);
}

#[test]
fn two_broken_headers_end_the_open() {
    let mut file = minimal_file(NIL);
    file[SLOT + 200] ^= 1;
    file[2 * SLOT + 200] ^= 1;
    // Nothing behind the headers is looked at.
    file[2 * MIB] = b'X';
    assert_eq!(Some(VhdxError::NoValidHeader { offset: 65536 }), Vhdx::new(&file).err());
}

#[test]
fn the_region_table_goes_with_the_header() {
    let mut file = minimal_file(NIL);
    // The first table sends the reader to a place without metadata.
    write_region_table(&mut file, 1, &[(BAT, 3 * MIB as u64, MIB as u32), (METADATA, MIB as u64, MIB as u32)]);
    assert_eq!(2, Vhdx::new(&file).unwrap().current_header);
    write_header(&mut file, 1, 6, NIL);
    assert_eq!(
        Some(VhdxError::BadMagic {
            offset: MIB as u64,
            expected: Signature::MetaData,
            got: Signature::Unknown
        }),
        Vhdx::new(&file).err()
    );
}

#[test]
fn failures_carry_offsets_in_the_file() {
    let good = minimal_file(G);
    assert!(Vhdx::new(&good).is_ok());

    assert_eq!(Some(VhdxError::Io { offset: 0 }), Vhdx::new(&[]).err());
    assert_eq!(Some(VhdxError::Io { offset: 65536 + 100 }), Vhdx::new(&good[..65536 + 100]).err());
    assert_eq!(Some(VhdxError::Io { offset: 4 * 65536 }), Vhdx::new(&good[..4 * 65536]).err());

    let mut file = good.clone();
    file[0] = b'V';
    assert_eq!(
        Some(VhdxError::BadMagic { offset: 0, expected: Signature::Vhdxfile, got: Signature::Unknown }),
        Vhdx::new(&file).err()
    );

    let mut file = good.clone();
    file[4 * SLOT + 5000] ^= 1;
    assert!(matches!(Vhdx::new(&file), Err(VhdxError::BadChecksum { offset: 262148, .. })));

    // The current header breaks a rule.
    let mut file = good.clone();
    file[2 * SLOT + 66] = 2;
    seal(&mut file[2 * SLOT..2 * SLOT + 4096]);
    assert_eq!(Some(VhdxError::BadVersion { offset: 2 * 65536 + 66, version: 2 }), Vhdx::new(&file).err());

    // The log does not lie in the file.
    assert_eq!(Some(VhdxError::Io { offset: 2 * MIB as u64 - 1 }), Vhdx::new(&good[..2 * MIB - 1]).err());

    let mut file = good.clone();
    file[MIB..MIB + 4096].copy_from_slice(&log_entry(1, G));
    file[MIB + 4096..MIB + 8192].copy_from_slice(&log_entry(2, G));
    file[MIB + 4096 + 12] = 1;
    assert!(matches!(
        Vhdx::new(&file),
        Err(VhdxError::BadAlignment { offset: 1052684, value: 1, .. })
    ));

    let mut file = good.clone();
    write_region_table(&mut file, 2, &[(BAT, 3 * MIB as u64, MIB as u32)]);
    assert_eq!(
        Some(VhdxError::MissingKnownRegion { offset: 4 * 65536, guid: guid(METADATA) }),
        Vhdx::new(&file).err()
    );
    let mut file = good.clone();
    write_region_table(&mut file, 2, &[(METADATA, 2 * MIB as u64, MIB as u32)]);
    assert_eq!(
        Some(VhdxError::MissingKnownRegion { offset: 4 * 65536, guid: guid(BAT) }),
        Vhdx::new(&file).err()
    );

    // Metadata or BAT beyond the end of the file.
    assert_eq!(Some(VhdxError::Io { offset: 3 * MIB as u64 - 1 }), Vhdx::new(&good[..3 * MIB - 1]).err());
    assert_eq!(Some(VhdxError::Io { offset: 4 * MIB as u64 - 1 }), Vhdx::new(&good[..4 * MIB - 1]).err());

    let mut file = good.clone();
    file[2 * MIB + 0x10000 + 96] = 1;
    assert_eq!(
        Some(VhdxError::BadSectorSize { offset: 2 * MIB as u64 + 0x10000 + 96, value: 513 }),
        Vhdx::new(&file).err()
    );

    let mut file = good.clone();
    file[3 * MIB + 8 * 31] = 0x08;
    assert_eq!(
        Some(VhdxError::BadBatReserved { offset: 3 * MIB as u64 + 8 * 31 }),
        Vhdx::new(&file).err()
    );
    let mut file = good.clone();
    file[3 * MIB + 8 * 32] = 0x08;
    assert!(Vhdx::new(&file).is_ok());
}

#[test]
fn present_blocks_must_lie_in_the_file() {
    let mut file = minimal_file(NIL);
    let entry = (6u64 | (3 << 20)).to_le_bytes();
    file[3 * MIB + 16..3 * MIB + 24].copy_from_slice(&entry);
    let vhdx = Vhdx::new(&file).unwrap();
    assert_eq!(BatEntryState::FullyPresent, vhdx.bat_table[2].state);
    assert_eq!(3, vhdx.bat_table[2].file_offset_mb);
    let entry = (6u64 | (4 << 20)).to_le_bytes();
    file[3 * MIB + 16..3 * MIB + 24].copy_from_slice(&entry);
    assert_eq!(
        Some(VhdxError::BadBatOffset { offset: 3 * MIB as u64 + 16, file_offset_mb: 4 }),
        Vhdx::new(&file).err()
    );
}

#[test]
fn a_differencing_disk_has_the_larger_table() {
    let mut file = minimal_file(NIL);
    write_metadata(&mut file, 2 * MIB, MIB as u32, 8, 10 * GIB, 4096);
    let vhdx = Vhdx::new(&file).unwrap();
    assert!(vhdx.meta_data.file_parameters.has_parent);
    assert_eq!(32768, vhdx.meta_data.chunk_ratio);
    assert_eq!(1, vhdx.meta_data.sector_bitmaps_blocks_count);
    assert_eq!(32769, vhdx.meta_data.total_bat_entries_differencing);
    assert_eq!(32769, vhdx.bat_table.len());
    // The same disk without a parent has more entries than its BAT region holds.
    write_metadata(&mut file, 2 * MIB, MIB as u32, 0, 1024 * GIB, 4096);
    assert_eq!(Some(VhdxError::Io { offset: 4 * MIB as u64 }), Vhdx::new(&file).err());
}

#[test]
fn slots_and_regions() {
    let file: Vec<u8> = (0..200_000u32).map(|i| i as u8).collect();
    assert_eq!(&file[0..65536], slot(&file, 0));
    assert_eq!(&file[65536..131072], slot(&file, 65536));
    assert_eq!(&file[196608..], slot(&file, 196608));
    assert_eq!(0, slot(&file, 262144).len());
    assert_eq!(Some(&file[10..30]), region_slice(&file, 10, 20));
    assert_eq!(Some(&file[200_000..]), region_slice(&file, 200_000, 0));
    assert_eq!(None, region_slice(&file, 199_990, 11));
    assert_eq!(None, region_slice(&file, u64::MAX, 1));
    assert_eq!(None, region_slice(&file, 1, u64::MAX));
}
