use uuid::Uuid;
use vhdx::bat::calc_payload_blocks_count;
use vhdx::error::VhdxError;
use vhdx::fti::FileTypeIdentifier;
use vhdx::log::LogHeader;
use vhdx::region_table::RegionTable;
use vhdx::vhdx_header::Header;
use vhdx::vhdx_header::MainHeader;
use vhdx::DeSerialise;
use vhdx::Signature;

const SLOT: usize = 65536;

fn fti_bytes() -> Vec<u8> {
    vec![
        0x76, 0x68, 0x64, 0x78, 0x66, 0x69, 0x6c, 0x65, 0x4d, 0x00, 0x69, 0x00, 0x63, 0x00, 0x72,
        0x00, 0x6f, 0x00, 0x73, 0x00, 0x6f, 0x00, 0x66, 0x00, 0x74, 0x00, 0x20, 0x00, 0x57, 0x00,
        0x69, 0x00, 0x6e, 0x00, 0x64, 0x00, 0x6f, 0x00, 0x77, 0x00, 0x73, 0x00, 0x20, 0x00, 0x31,
        0x00, 0x30, 0x00, 0x2e, 0x00, 0x30, 0x00, 0x2e, 0x00, 0x31, 0x00, 0x39, 0x00, 0x30, 0x00,
        0x34, 0x00, 0x35, 0x00, 0x2e, 0x00, 0x30,
    ]
}

fn header_bytes() -> Vec<u8> {
    vec![
        0x68, 0x65, 0x61, 0x64, 0x6c, 0xef, 0x07, 0x80, 0x04, 0x00, 0x00, 0x00, 0x00, 0x00, 0x00,
        0x00, 0xcc, 0xe0, 0x65, 0xb3, 0xaa, 0xf1, 0xd8, 0x4b, 0x9c, 0x8d, 0x16, 0x09, 0xd9, 0x38,
        0xb5, 0xec, 0x59, 0xe3, 0xca, 0x76, 0xef, 0xf9, 0xab, 0x45, 0xad, 0x4a, 0x77, 0xda, 0xae,
        0xce, 0xf6, 0x17, 0x00, 0x00, 0x00, 0x00, 0x00, 0x00, 0x00, 0x00, 0x00, 0x00, 0x00, 0x00,
        0x00, 0x00, 0x00, 0x00, 0x00, 0x00, 0x01, 0x00, 0x00, 0x00, 0x10, 0x00, 0x00, 0x00, 0x10,
        0x00, 0x00, 0x00, 0x00, 0x00, 0x00, 0x00, 0x00, 0x00, 0x00, 0x00, 0x00, 0x00, 0x00, 0x00,
        0x00, 0x00, 0x00, 0x00, 0x00, 0x00,
    ]
}

fn region_table_bytes() -> Vec<u8> {
    vec![
        0x72, 0x65, 0x67, 0x69, 0xae, 0x8c, 0x6b, 0xc6, 0x02, 0x00, 0x00, 0x00, 0x00, 0x00, 0x00,
        0x00, 0x66, 0x77, 0xc2, 0x2d, 0x23, 0xf6, 0x00, 0x42, 0x9d, 0x64, 0x11, 0x5e, 0x9b, 0xfd,
        0x4a, 0x08, 0x00, 0x00, 0x30, 0x00, 0x00, 0x00, 0x00, 0x00, 0x00, 0x00, 0x10, 0x00, 0x01,
        0x00, 0x00, 0x00, 0x06, 0xa2, 0x7c, 0x8b, 0x90, 0x47, 0x9a, 0x4b, 0xb8, 0xfe, 0x57, 0x5f,
        0x05, 0x0f, 0x88, 0x6e, 0x00, 0x00, 0x20, 0x00, 0x00, 0x00, 0x00, 0x00, 0x00, 0x00, 0x10,
        0x00, 0x01, 0x00, 0x00, 0x00, 0x00, 0x00, 0x00, 0x00, 0x00, 0x00, 0x00, 0x00, 0x00, 0x00,
        0x00, 0x00, 0x00, 0x00, 0x00, 0x00,
    ]
}

fn log_header_bytes() -> Vec<u8> {
    vec![
        0x6c, 0x6f, 0x67, 0x65, 0xbc, 0x30, 0xfd, 0xe9, 0x00, 0x10, 0x00, 0x00, 0x00, 0x00, 0x00,
        0x00, 0x8d, 0xec, 0x92, 0x41, 0x0f, 0x51, 0x28, 0x36, 0x00, 0x00, 0x00, 0x00, 0x00, 0x00,
        0x00, 0x00, 0x02, 0x0a, 0x46, 0xdd, 0xb4, 0x1d, 0x13, 0x4d, 0xad, 0x70, 0xdc, 0x30, 0x93,
        0xaf, 0xd5, 0xc2, 0x00, 0x00, 0x80, 0x00, 0x00, 0x00, 0x00, 0x00, 0x00, 0x00, 0x80, 0x00,
        0x00, 0x00, 0x00, 0x00, 0x00, 0x00, 0x00, 0x00, 0x00, 0x00, 0x00, 0x00, 0x00, 0x00, 0x00,
        0x00, 0x00, 0x00, 0x00, 0x00,
    ]
}

fn guid(text: &str) -> u128 {
    Uuid::parse_str(text).unwrap().as_u128()
}

#[test]
fn bat_ceil_correctly() {
    assert_eq!(4, calc_payload_blocks_count(10, 3))
}

#[test]
fn bat_utils_ceil_correctly() {
    assert_eq!(4, calc_payload_blocks_count(10, 3))
}

#[test]
fn log_should_deserialize_entry_header() {
    let bytes = log_header_bytes();

    let entry_header = LogHeader::deserialize(&bytes).unwrap();

    assert_eq!(Signature::Loge, entry_header.signature);
}

#[test]
fn entry_header_should_deserialize_entry_header() {
    let bytes = log_header_bytes();

    let entry_header = LogHeader::deserialize(&bytes).unwrap();

    assert_eq!("loge", std::str::from_utf8(&bytes[0..4]).unwrap());
    assert_eq!(Signature::Loge, entry_header.signature);
    assert_eq!(0xe9fd30bc, entry_header.checksum);
    assert_eq!(4096, entry_header.entry_length);
    assert_eq!(0, entry_header.tail);
    assert_eq!(0x3628510f4192ec8d, entry_header.seq_number);
    assert_eq!(0, entry_header.descript_count);
    assert_eq!(guid("dd460a02-1db4-4d13-ad70-dc3093afd5c2"), entry_header.log_guid.value);
    assert_eq!(0x800000, entry_header.flushed_file_offset);
    assert_eq!(0x800000, entry_header.last_file_offset);
    assert!(entry_header.validate().is_ok());
}

#[test]
fn fti_parse_fti() {
    let mut values = fti_bytes();

    values.resize(SLOT, 0);

    let fti = FileTypeIdentifier::deserialize(&values).unwrap();

    assert_eq!(Signature::Vhdxfile, fti.signature);
    assert_eq!("Microsoft Windows 10.0.19045.0", fti.creator);
}

#[test]
fn vhdx_header_parse_fti() {
    let mut values = fti_bytes();

    values.resize(SLOT, 0);

    let fti = FileTypeIdentifier::deserialize(&values).unwrap();

    assert_eq!(Signature::Vhdxfile, fti.signature);
    assert_eq!("Microsoft Windows 10.0.19045.0", fti.creator);
}

#[test]
fn vhdx_header_parse_headers() {
    let mut values = header_bytes();

    values.resize(SLOT, 0);

    let headers = Header::deserialize(&values).unwrap();

    assert_eq!(Signature::Head, headers.signature);
    assert_eq!(2148003692, headers.checksum);
    assert_eq!(4, headers.seq_number);
    assert_eq!(guid("b365e0cc-f1aa-4bd8-9c8d-1609d938b5ec"), headers.file_write_guid.value);
    assert_eq!(guid("76cae359-f9ef-45ab-ad4a-77daaecef617"), headers.data_write_guid.value);

    // 0 means there are no log entries
    assert_eq!(guid("00000000-0000-0000-0000-000000000000"), headers.log_guid.value);
    assert_eq!(0, headers.log_version);
    assert_eq!(1, headers.version);

    // 1 mb in binary equals 1048576 (2^20)
    assert_eq!(1048576, headers.log_length);
    assert_eq!(1048576, headers.log_offset);
}

#[test]
fn headers_parse_headers() {
    let mut values = header_bytes();

    values.resize(SLOT, 0);

    let headers = Header::deserialize(&values).unwrap();

    assert_eq!(Signature::Head, headers.signature);
    assert_eq!(2148003692, headers.checksum);
    assert_eq!(4, headers.seq_number);
    // The text form of the sixteen bytes in the order they lie on disk.
    assert_eq!(
        Uuid::parse_str("cce065b3-aaf1-d84b-9c8d-1609d938b5ec").unwrap().as_bytes().to_vec(),
        headers.file_write_guid.to_bytes_le()
    );
    assert_eq!(
        Uuid::parse_str("59e3ca76-eff9-ab45-ad4a-77daaecef617").unwrap().as_bytes().to_vec(),
        headers.data_write_guid.to_bytes_le()
    );

    // 0 means there are no log entries
    assert_eq!(
        Uuid::parse_str("00000000-0000-0000-0000-000000000000").unwrap().as_bytes().to_vec(),
        headers.log_guid.to_bytes_le()
    );
    assert_eq!(0, headers.log_version);
    assert_eq!(1, headers.version);

    // 1 mb in binary equals 1048576 (2^20)
    assert_eq!(1048576, headers.log_length);
    assert_eq!(1048576, headers.log_offset);
}

#[test]
fn should_deserialize_rth() {
    let mut values = region_table_bytes();

    values.resize(SLOT, 0);

    let rth = RegionTable::deserialize(&values).unwrap();

    assert_eq!(Signature::Regi, rth.signature);
    assert_eq!(2, rth.entry_count);
    assert_eq!(guid("2DC27766-F623-4200-9D64-115E9BFD4A08"), rth.table_entries[0].guid.value);
    assert_eq!(0x300000, rth.table_entries[0].file_offset);
    assert_eq!(guid("8B7CA206-4790-4B9A-B8FE-575F050F886E"), rth.table_entries[1].guid.value);
    assert_eq!(0x200000, rth.table_entries[1].file_offset);
}

#[test]
fn parse_file_header() {
    // FTI
    let mut b_fti = fti_bytes();

    b_fti.resize(64000, 0);

    // 2 header sections
    let mut b_header_1 = header_bytes();

    b_header_1.resize(64000, 0);

    let mut b_header_2 = b_header_1.clone();

    let mut b_region_table_1 = region_table_bytes();

    b_region_table_1.resize(64000, 0);
    let mut b_region_table_2 = b_region_table_1.clone();

    let mut bytes = Vec::new();
    bytes.append(&mut b_fti);
    bytes.append(&mut b_header_1);
    bytes.append(&mut b_header_2);
    bytes.append(&mut b_region_table_1);
    bytes.append(&mut b_region_table_2);

    // The five structures follow each other at steps of 64000 bytes here, and
    // the slots of the format are 65536 bytes long: the file-type identifier
    // stands where it belongs, and the fourth slot holds no region table.
    let fti = FileTypeIdentifier::deserialize(&bytes).unwrap();
    assert_eq!(Signature::Vhdxfile, fti.signature);

    let header = MainHeader::deserialize(&bytes);
    assert_eq!(
        Some(VhdxError::BadMagic {
            offset: 3 * 65536,
            expected: Signature::Regi,
            got: Signature::Unknown
        }),
        header.err()
    );
}

#[test]
fn main_header_in_whole_slots() {
    let mut bytes = Vec::new();
    for part in [fti_bytes(), header_bytes(), header_bytes(), region_table_bytes(), region_table_bytes()] {
        let mut slot = part;
        slot.resize(SLOT, 0);
        bytes.append(&mut slot);
    }

    let header = MainHeader::deserialize(&bytes).unwrap();

    assert_eq!(Signature::Vhdxfile, header.fti.signature);
    assert_eq!("Microsoft Windows 10.0.19045.0", header.fti.creator);
    assert_eq!(4, header.header_1.seq_number);
    assert_eq!(header.header_1, header.header_2);
    assert_eq!(2, header.region_table_1.table_entries.len());
    assert_eq!(2, header.region_table_2.table_entries.len());
}
