use uuid::Uuid;
use vhdx::error::AlignedField;
use vhdx::error::VhdxError;
use vhdx::guid::Guid;
use vhdx::region_table::KnowRegion;
use vhdx::region_table::RTEntry;
use vhdx::region_table::RegionTable;
use vhdx::vhdx_header::check_sign_and_crc;
use vhdx::vhdx_header::get_current_header;
use vhdx::vhdx_header::Header;
use vhdx::Crc32;
use vhdx::DeSerialise;
use vhdx::Signature;

const SLOT: usize = 65536;
const MIB: u64 = 1024 * 1024;
const BAT: &str = "2DC27766-F623-4200-9D64-115E9BFD4A08";
const METADATA: &str = "8B7CA206-4790-4B9A-B8FE-575F050F886E";
const OTHER: &str = "11111111-2222-3333-4444-555555555555";

fn reference_crc(bytes: &[u8]) -> u32 {
    crc::Crc::<u32>::new(&crc::CRC_32_ISCSI).checksum(bytes)
}

fn seal(bytes: &mut [u8]) {
    bytes[4..8].copy_from_slice(&[0; 4]);
    let checksum = reference_crc(bytes);
    bytes[4..8].copy_from_slice(&checksum.to_le_bytes());
}

fn guid(text: &str) -> Guid {
    Guid { value: Uuid::parse_str(text).unwrap().as_u128() }
}

fn guid_bytes(text: &str) -> [u8; 16] {
    Uuid::parse_str(text).unwrap().to_bytes_le()
}

struct HeaderFields {
    seq_number: u64,
    log_guid: &'static str,
    log_version: u16,
    version: u16,
    log_length: u32,
    log_offset: u64,
}

fn good_fields(seq_number: u64) -> HeaderFields {
    HeaderFields {
        seq_number,
        log_guid: "00000000-0000-0000-0000-000000000000",
        log_version: 0,
        version: 1,
        log_length: MIB as u32,
        log_offset: MIB,
    }
}

fn header_slot(fields: &HeaderFields) -> Vec<u8> {
    let mut slot = vec![0u8; SLOT];
    slot[0..4].copy_from_slice(b"head");
    slot[8..16].copy_from_slice(&fields.seq_number.to_le_bytes());
    slot[16..32].copy_from_slice(&guid_bytes("b365e0cc-f1aa-4bd8-9c8d-1609d938b5ec"));
    slot[32..48].copy_from_slice(&guid_bytes("76cae359-f9ef-45ab-ad4a-77daaecef617"));
    slot[48..64].copy_from_slice(&guid_bytes(fields.log_guid));
    slot[64..66].copy_from_slice(&fields.log_version.to_le_bytes());
    slot[66..68].copy_from_slice(&fields.version.to_le_bytes());
    slot[68..72].copy_from_slice(&fields.log_length.to_le_bytes());
    slot[72..80].copy_from_slice(&fields.log_offset.to_le_bytes());
    seal(&mut slot[0..4096]);
    slot
}

fn header(seq_number: u64) -> Header {
    Header::deserialize(&header_slot(&good_fields(seq_number))).unwrap()
}

fn header_with_broken_crc(seq_number: u64) -> Header {
    let mut slot = header_slot(&good_fields(seq_number));
    slot[100] ^= 0xFF;
    Header::deserialize(&slot).unwrap()
}

fn header_with_broken_signature(seq_number: u64) -> Header {
    let mut slot = header_slot(&good_fields(seq_number));
    slot[0] = b'H';
    seal(&mut slot[0..4096]);
    Header::deserialize(&slot).unwrap()
}

#[test]
fn header_fields_are_decoded() {
    let fields = HeaderFields {
        seq_number: 0x0102030405060708,
        log_guid: "dd460a02-1db4-4d13-ad70-dc3093afd5c2",
        log_version: 0,
        version: 1,
        log_length: 3 * MIB as u32,
        log_offset: 7 * MIB,
    };
    let slot = header_slot(&fields);
    let h = Header::deserialize(&slot).unwrap();
    assert_eq!(Signature::Head, h.signature);
    assert_eq!(0x0102030405060708, h.seq_number);
    assert_eq!(0x0102030405060708, h.sequence_number());
    assert_eq!(guid("b365e0cc-f1aa-4bd8-9c8d-1609d938b5ec"), h.file_write_guid);
    assert_eq!(guid("76cae359-f9ef-45ab-ad4a-77daaecef617"), h.data_write_guid);
    assert_eq!(guid("dd460a02-1db4-4d13-ad70-dc3093afd5c2"), h.log_guid);
    assert_eq!(0, h.log_version);
    assert_eq!(1, h.version);
    assert_eq!(3 * MIB as u32, h.log_length);
    assert_eq!(7 * MIB, h.log_offset);
    assert_eq!(Ok(()), h.validate());
}

#[test]
fn header_crc_round_trip() {
    let slot = header_slot(&good_fields(9));
    let h = Header::deserialize(&slot).unwrap();
    let mut zeroed = slot[0..4096].to_vec();
    zeroed[4..8].copy_from_slice(&[0; 4]);
    assert_eq!(reference_crc(&zeroed), h.checksum);
    assert_eq!(h.checksum, h.computed_checksum);
    assert_eq!(h.checksum, h.crc32());
    assert_eq!(u32::from_le_bytes([slot[4], slot[5], slot[6], slot[7]]), h.checksum);
}

#[test]
fn header_checksum_covers_four_kib() {
    let mut slot = header_slot(&good_fields(9));
    slot[4096] = 1;
    slot[SLOT - 1] = 1;
    assert_eq!(Ok(()), Header::deserialize(&slot).unwrap().validate());
    slot[4095] = 1;
    let h = Header::deserialize(&slot).unwrap();
    assert_eq!(
        Err(VhdxError::BadChecksum { offset: 4, expected: h.checksum, got: h.computed_checksum }),
        h.validate()
    );
    assert_ne!(h.checksum, h.computed_checksum);
}

#[test]
fn header_slot_must_be_whole() {
    let slot = header_slot(&good_fields(1));
    assert_eq!(Err(VhdxError::Io { offset: 65535 }), Header::deserialize(&slot[..SLOT - 1]));
    assert_eq!(Err(VhdxError::Io { offset: 0 }), Header::deserialize(&[]));
}

#[test]
fn header_rules() {
    let h = header_with_broken_signature(1);
    assert_eq!(
        Err(VhdxError::BadMagic { offset: 0, expected: Signature::Head, got: Signature::Unknown }),
        h.validate()
    );
    let mut fields = good_fields(1);
    fields.version = 2;
    assert_eq!(
        Err(VhdxError::BadVersion { offset: 66, version: 2 }),
        Header::deserialize(&header_slot(&fields)).unwrap().validate()
    );
    let mut fields = good_fields(1);
    fields.log_version = 1;
    assert_eq!(
        Err(VhdxError::BadLogVersion { offset: 64, version: 1 }),
        Header::deserialize(&header_slot(&fields)).unwrap().validate()
    );
    let mut fields = good_fields(1);
    fields.log_length = MIB as u32 + 4096;
    assert_eq!(
        Err(VhdxError::BadAlignment {
            offset: 68,
            field: AlignedField::LogLength,
            value: MIB + 4096
        }),
        Header::deserialize(&header_slot(&fields)).unwrap().validate()
    );
    let mut fields = good_fields(1);
    fields.log_offset = MIB - 1;
    assert_eq!(
        Err(VhdxError::BadAlignment {
            offset: 72,
            field: AlignedField::LogOffset,
            value: MIB - 1
        }),
        Header::deserialize(&header_slot(&fields)).unwrap().validate()
    );
    // The version is looked at before the log version.
    let mut fields = good_fields(1);
    fields.version = 0;
    fields.log_version = 7;
    assert_eq!(
        Err(VhdxError::BadVersion { offset: 66, version: 0 }),
        Header::deserialize(&header_slot(&fields)).unwrap().validate()
    );
}

#[test]
fn a_built_header_is_good_with_the_checksum_of_its_encoding() {
    let nil = Guid { value: 0 };
    let draft = Header::new(Signature::Head, 0, 3, guid(BAT), nil, guid(OTHER), 0, 1, 1 << 20, 5 << 20);
    let bytes = draft.to_bytes();
    assert_eq!(4096, bytes.len());
    assert_eq!(b"head", &bytes[0..4]);
    assert_eq!(&[0u8; 4016][..], &bytes[80..]);
    let checksum = reference_crc(&bytes);
    assert_eq!(checksum, draft.computed_checksum);
    assert_eq!(
        Err(VhdxError::BadChecksum { offset: 4, expected: 0, got: checksum }),
        check_sign_and_crc(&draft)
    );

    let h = Header::new(Signature::Head, checksum, 3, guid(BAT), nil, guid(OTHER), 0, 1, 1 << 20, 5 << 20);
    assert_eq!(checksum, h.computed_checksum);
    assert_eq!(Ok(()), check_sign_and_crc(&h));
    assert_eq!(Ok(()), h.validate());
    let wrong = Header::new(Signature::Head, !checksum, 3, guid(BAT), nil, guid(OTHER), 0, 1, 1 << 20, 5 << 20);
    assert_eq!(checksum, wrong.computed_checksum);
    assert!(check_sign_and_crc(&wrong).is_err());

    // What is built is what its encoding decodes to.
    let mut slot = h.to_bytes();
    slot.resize(SLOT, 0);
    assert_eq!(Ok(h), Header::deserialize(&slot));
}

#[test]
fn election_by_sequence_number() {
    let (h1, h2) = (header(4), header(5));
    assert_eq!(Ok((2, &h2)), get_current_header(&h1, &h2));
    let (h1, h2) = (header(6), header(5));
    assert_eq!(Ok((1, &h1)), get_current_header(&h1, &h2));
}

#[test]
fn election_with_corrupt_first_header() {
    let (h1, h2) = (header_with_broken_crc(9), header(5));
    assert_eq!(Signature::Head, h1.signature);
    assert_eq!(Ok((2, &h2)), get_current_header(&h1, &h2));
    let (h1, h2) = (header(5), header_with_broken_crc(9));
    assert_eq!(Ok((1, &h1)), get_current_header(&h1, &h2));
    let (h1, h2) = (header_with_broken_signature(9), header(5));
    assert_eq!(Ok((2, &h2)), get_current_header(&h1, &h2));
}

#[test]
fn election_with_both_headers_broken() {
    let (h1, h2) = (header_with_broken_crc(4), header_with_broken_crc(5));
    assert_eq!(Err(VhdxError::NoValidHeader { offset: 0 }), get_current_header(&h1, &h2));
    let (h1, h2) = (header_with_broken_signature(4), header_with_broken_crc(5));
    assert_eq!(Err(VhdxError::NoValidHeader { offset: 0 }), get_current_header(&h1, &h2));
}

#[test]
fn election_prefers_the_first_header_on_a_tie() {
    let (h1, h2) = (header(5), header(5));
    assert_eq!(1, get_current_header(&h1, &h2).unwrap().0);
    let (h1, h2) = (header(u64::MAX), header(u64::MAX));
    assert_eq!(1, get_current_header(&h1, &h2).unwrap().0);
}

#[test]
fn election_looks_at_signature_checksum_and_sequence_number_only() {
    let nil = Guid { value: 0 };
    for signature_ok_1 in [false, true] {
        for crc_ok_1 in [false, true] {
            for signature_ok_2 in [false, true] {
                for crc_ok_2 in [false, true] {
                    for (seq_1, seq_2) in [(1u64, 2u64), (2, 1), (3, 3)] {
                        let make = |signature_ok: bool, crc_ok: bool, seq: u64, noise: u16| {
                            let mut h = Header::new(
                                if signature_ok { Signature::Head } else { Signature::Regi },
                                10,
                                seq,
                                Guid { value: noise as u128 },
                                nil,
                                nil,
                                noise,
                                noise,
                                noise as u32,
                                noise as u64,
                            );
                            h.computed_checksum = if crc_ok { 10 } else { 11 };
                            h
                        };
                        let (h1, h2) =
                            (make(signature_ok_1, crc_ok_1, seq_1, 0), make(signature_ok_2, crc_ok_2, seq_2, 0));
                        let (k1, k2) =
                            (make(signature_ok_1, crc_ok_1, seq_1, 7), make(signature_ok_2, crc_ok_2, seq_2, 9));
                        let chosen = get_current_header(&h1, &h2).map(|(n, _)| n);
                        assert_eq!(chosen, get_current_header(&k1, &k2).map(|(n, _)| n));
                        let good_1 = signature_ok_1 && crc_ok_1;
                        let good_2 = signature_ok_2 && crc_ok_2;
                        let expected = match (good_1, good_2) {
                            (false, false) => Err(VhdxError::NoValidHeader { offset: 0 }),
                            (true, false) => Ok(1),
                            (false, true) => Ok(2),
                            (true, true) => Ok(if seq_2 > seq_1 { 2 } else { 1 }),
                        };
                        assert_eq!(expected, chosen);
                    }
                }
            }
        }
    }
}

fn region_table_slot(entries: &[(&str, u64, u32, u32)]) -> Vec<u8> {
    let mut slot = vec![0u8; SLOT];
    slot[0..4].copy_from_slice(b"regi");
    slot[8..12].copy_from_slice(&(entries.len() as u32).to_le_bytes());
    for (k, (id, file_offset, length, required)) in entries.iter().enumerate() {
        let at = 16 + 32 * k;
        slot[at..at + 16].copy_from_slice(&guid_bytes(id));
        slot[at + 16..at + 24].copy_from_slice(&file_offset.to_le_bytes());
        slot[at + 24..at + 28].copy_from_slice(&length.to_le_bytes());
        slot[at + 28..at + 32].copy_from_slice(&required.to_le_bytes());
    }
    seal(&mut slot);
    slot
}

#[test]
fn region_table_entries_are_decoded_and_found() {
    let slot = region_table_slot(&[
        (BAT, 3 * MIB, MIB as u32, 1),
        (OTHER, 9 * MIB, 2 * MIB as u32, 0),
        (METADATA, 2 * MIB, MIB as u32, 1),
    ]);
    let table = RegionTable::deserialize(&slot).unwrap();
    assert_eq!(Signature::Regi, table.signature);
    assert_eq!(3, table.entry_count);
    assert_eq!(
        vec![
            RTEntry { guid: guid(BAT), file_offset: 3 * MIB, length: MIB as u32, required: true },
            RTEntry {
                guid: guid(OTHER),
                file_offset: 9 * MIB,
                length: 2 * MIB as u32,
                required: false
            },
            RTEntry {
                guid: guid(METADATA),
                file_offset: 2 * MIB,
                length: MIB as u32,
                required: true
            },
        ],
        table.table_entries
    );
    assert_eq!(Some(table.table_entries[0]), table.find(KnowRegion::Bat));
    assert_eq!(Some(table.table_entries[2]), table.find(KnowRegion::MetaData));
    assert_eq!(Some(KnowRegion::Bat), table.table_entries[0].known_region());
    assert_eq!(None, table.table_entries[1].known_region());
    assert_eq!(Some(KnowRegion::MetaData), table.table_entries[2].known_region());
}

#[test]
fn region_table_crc_round_trip() {
    let slot = region_table_slot(&[(BAT, 3 * MIB, MIB as u32, 1), (METADATA, 2 * MIB, MIB as u32, 1)]);
    let table = RegionTable::deserialize(&slot).unwrap();
    let mut zeroed = slot.clone();
    zeroed[4..8].copy_from_slice(&[0; 4]);
    assert_eq!(reference_crc(&zeroed), table.checksum);
    assert_eq!(table.checksum, table.crc32());
}

#[test]
fn a_built_region_table_carries_the_checksum_of_its_encoding() {
    let draft = RegionTable::new(Signature::Regi, 0, 0);
    let bytes = draft.to_bytes();
    assert_eq!(SLOT, bytes.len());
    assert_eq!(reference_crc(&bytes), draft.computed_checksum);
    assert_ne!(draft.checksum, draft.crc32());

    let mut table = RegionTable::new(Signature::Regi, 0, 2);
    table.table_entries.push(RTEntry::new(guid(BAT), 3 * MIB, MIB as u32, true));
    table.table_entries.push(RTEntry::new(guid(METADATA), 2 * MIB, MIB as u32, false));
    let mut bytes = table.to_bytes();
    assert_eq!(SLOT, bytes.len());
    seal(&mut bytes);
    let decoded = RegionTable::deserialize(&bytes).unwrap();
    assert_eq!(table.table_entries, decoded.table_entries);
    assert_eq!(2, decoded.entry_count);
    assert_eq!(bytes, decoded.to_bytes());
}

#[test]
fn region_table_without_entries() {
    let table = RegionTable::deserialize(&region_table_slot(&[])).unwrap();
    assert_eq!(0, table.table_entries.len());
    assert_eq!(None, table.find(KnowRegion::Bat));
    assert_eq!(None, table.find(KnowRegion::MetaData));
}

#[test]
fn region_table_finds_the_last_of_two() {
    let slot = region_table_slot(&[(BAT, 3 * MIB, MIB as u32, 1), (BAT, 5 * MIB, MIB as u32, 1)]);
    let table = RegionTable::deserialize(&slot).unwrap();
    assert_eq!(5 * MIB, table.find(KnowRegion::Bat).unwrap().file_offset);
}

#[test]
fn region_table_failures() {
    let good = region_table_slot(&[(BAT, 3 * MIB, MIB as u32, 1)]);
    assert_eq!(Some(VhdxError::Io { offset: 65535 }), RegionTable::deserialize(&good[..SLOT - 1]).err());

    let mut slot = good.clone();
    slot[0..4].copy_from_slice(b"head");
    assert_eq!(
        Some(VhdxError::BadMagic { offset: 0, expected: Signature::Regi, got: Signature::Head }),
        RegionTable::deserialize(&slot).err()
    );

    let mut slot = good.clone();
    slot[8..12].copy_from_slice(&2048u32.to_le_bytes());
    seal(&mut slot);
    assert_eq!(
        Some(VhdxError::BadEntryCount { offset: 8, count: 2048 }),
        RegionTable::deserialize(&slot).err()
    );

    let mut slot = good.clone();
    slot[SLOT - 1] = 1;
    let stored = u32::from_le_bytes([slot[4], slot[5], slot[6], slot[7]]);
    let mut zeroed = slot.clone();
    zeroed[4..8].copy_from_slice(&[0; 4]);
    assert_eq!(
        Some(VhdxError::BadChecksum { offset: 4, expected: stored, got: reference_crc(&zeroed) }),
        RegionTable::deserialize(&slot).err()
    );

    let slot = region_table_slot(&[(BAT, 3 * MIB, MIB as u32, 1), (OTHER, 9 * MIB, MIB as u32, 1)]);
    assert_eq!(
        Some(VhdxError::UnknownRequiredRegion { offset: 48, guid: guid(OTHER) }),
        RegionTable::deserialize(&slot).err()
    );

    let slot = region_table_slot(&[(BAT, 3 * MIB + 512, MIB as u32, 1)]);
    assert_eq!(
        Some(VhdxError::BadAlignment {
            offset: 32,
            field: AlignedField::RegionFileOffset,
            value: 3 * MIB + 512
        }),
        RegionTable::deserialize(&slot).err()
    );

    let slot = region_table_slot(&[(BAT, 0, MIB as u32, 1)]);
    assert_eq!(
        Some(VhdxError::BadAlignment { offset: 32, field: AlignedField::RegionFileOffset, value: 0 }),
        RegionTable::deserialize(&slot).err()
    );

    let slot = region_table_slot(&[(BAT, 3 * MIB, MIB as u32, 1), (METADATA, 2 * MIB, 4096, 1)]);
    assert_eq!(
        Some(VhdxError::BadAlignment { offset: 72, field: AlignedField::RegionLength, value: 4096 }),
        RegionTable::deserialize(&slot).err()
    );
}

#[test]
fn region_table_with_the_most_entries() {
    let entries: Vec<(&str, u64, u32, u32)> =
        (0..2047u64).map(|k| (OTHER, (k + 1) * MIB, MIB as u32, 0)).collect();
    let table = RegionTable::deserialize(&region_table_slot(&entries)).unwrap();
    assert_eq!(2047, table.table_entries.len());
    assert_eq!(2047 * MIB, table.table_entries[2046].file_offset);
}

#[test]
fn regions_must_not_collide() {
    let slot = region_table_slot(&[
        (BAT, 3 * MIB, MIB as u32, 1),
        (OTHER, 5 * MIB, MIB as u32, 0),
        (METADATA, 3 * MIB, MIB as u32, 1),
    ]);
    assert_eq!(Some(VhdxError::RegionOverlap { offset: 80 }), RegionTable::deserialize(&slot).err());

    let slot = region_table_slot(&[(BAT, 3 * MIB, 2 * MIB as u32, 1), (METADATA, 4 * MIB, MIB as u32, 1)]);
    assert_eq!(Some(VhdxError::RegionOverlap { offset: 48 }), RegionTable::deserialize(&slot).err());

    let slot = region_table_slot(&[(METADATA, 4 * MIB, MIB as u32, 1), (BAT, 3 * MIB, 2 * MIB as u32, 1)]);
    assert_eq!(Some(VhdxError::RegionOverlap { offset: 48 }), RegionTable::deserialize(&slot).err());

    // Two empty regions at one offset collide, neighbours do not.
    let slot = region_table_slot(&[(BAT, 3 * MIB, 0, 1), (METADATA, 3 * MIB, 0, 1)]);
    assert_eq!(Some(VhdxError::RegionOverlap { offset: 48 }), RegionTable::deserialize(&slot).err());
    let slot = region_table_slot(&[(BAT, 3 * MIB, MIB as u32, 1), (METADATA, 4 * MIB, MIB as u32, 1)]);
    assert!(RegionTable::deserialize(&slot).is_ok());

    let a = RTEntry::new(guid(BAT), u64::MAX - 5, 10, true);
    let b = RTEntry::new(guid(METADATA), u64::MAX - 1, 10, true);
    assert!(a.overlaps(&b));
    assert!(b.overlaps(&a));
}

#[test]
fn region_table_entry_alone() {
    let slot = region_table_slot(&[(METADATA, 2 * MIB, MIB as u32, 0x100)]);
    assert_eq!(
        Ok(RTEntry { guid: guid(METADATA), file_offset: 2 * MIB, length: MIB as u32, required: true }),
        RTEntry::deserialize(&slot[16..48])
    );
    assert_eq!(Err(VhdxError::Io { offset: 31 }), RTEntry::deserialize(&slot[16..47]));
}
