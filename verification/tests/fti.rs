use vhdx::error::ParseTag;
use vhdx::error::VhdxError;
use vhdx::fti::FileTypeIdentifier;
use vhdx::log::Log;
use vhdx::log::LogEntry;
use vhdx::log::LogHeader;
use vhdx::log::LogSequence;
use vhdx::log_entry::peek_signature;
use vhdx::guid::Guid;
use vhdx::vhdx_header::parse_headers;
use vhdx::vhdx_header::Header;
use vhdx::DeSerialise;
use vhdx::Signature;

fn fti_slot(creator: &[u16]) -> Vec<u8> {
    let mut slot = vec![0u8; 65536];
    slot[0..8].copy_from_slice(b"vhdxfile");
    for (k, unit) in creator.iter().enumerate() {
        slot[8 + 2 * k..10 + 2 * k].copy_from_slice(&unit.to_le_bytes());
    }
    slot
}

#[test]
fn file_type_identifier() {
    let units: Vec<u16> = "QEMU v8.2.0".encode_utf16().collect();
    let mut slot = fti_slot(&units);
    // The padding behind the creator string is not looked at.
    slot[8 + 512] = 0x41;
    slot[65535] = 0xFF;
    let fti = FileTypeIdentifier::deserialize(&slot).unwrap();
    assert_eq!(Signature::Vhdxfile, fti.signature);
    assert_eq!("QEMU v8.2.0", fti.creator);
    let built = FileTypeIdentifier::new(Signature::Vhdxfile, String::from("QEMU v8.2.0"));
    assert_eq!(built.signature, fti.signature);
    assert_eq!(built.creator, fti.creator);
}

#[test]
fn file_type_identifier_failures() {
    let slot = fti_slot(&[0x41]);
    assert_eq!(
        Some(VhdxError::Io { offset: 65535 }),
        FileTypeIdentifier::deserialize(&slot[..65535]).err()
    );
    let mut bad = slot.clone();
    bad[0..8].copy_from_slice(b"metadata");
    assert_eq!(
        Some(VhdxError::BadMagic {
            offset: 0,
            expected: Signature::Vhdxfile,
            got: Signature::MetaData
        }),
        FileTypeIdentifier::deserialize(&bad).err()
    );
    // A low surrogate with no high surrogate before it.
    let bad = fti_slot(&[0x41, 0xDC00, 0x42]);
    assert_eq!(
        Some(VhdxError::Parse { offset: 8, tag: ParseTag::Creator }),
        FileTypeIdentifier::deserialize(&bad).err()
    );
}

#[test]
fn header_parsing_alone() {
    let mut bytes = vec![0u8; 4096];
    bytes[0..4].copy_from_slice(b"head");
    bytes[8] = 7;
    bytes[66] = 1;
    let h = parse_headers(&bytes);
    assert_eq!(Signature::Head, h.signature);
    assert_eq!(7, h.seq_number);
    assert_eq!(1, h.version);
    assert_eq!(0, h.checksum);
    let mut slot = bytes.clone();
    slot.resize(65536, 0xEE);
    assert_eq!(Ok(h), Header::deserialize(&slot));
}

#[test]
fn peeking_takes_nothing() {
    let bytes = b"xxlogezero";
    assert_eq!(Some(Signature::Loge), peek_signature(bytes, 2));
    assert_eq!(Some(Signature::Zero), peek_signature(bytes, 6));
    assert_eq!(Some(Signature::Unknown), peek_signature(bytes, 0));
    assert_eq!(None, peek_signature(bytes, 7));
    assert_eq!(None, peek_signature(bytes, 10));
}

fn entry(seq_number: u64) -> LogEntry {
    let header = LogHeader::new(Signature::Loge, 0, 4096, 0, seq_number, 0, Guid { value: 9 }, 0, 0);
    LogEntry::new(header, Vec::new())
}

#[test]
fn entries_of_a_sequence() {
    let log = Log::new(vec![entry(4), entry(5), entry(6)]);
    let sequence = LogSequence { sequence_number: 5, start: 1, len: 2, head_value: 0, tail_value: 0 };
    assert!(sequence.is_valid());
    assert!(!sequence.is_empty());
    let entries = sequence.entries(&log.log_entries).unwrap();
    assert_eq!(vec![5, 6], entries.iter().map(|e| e.header.seq_number).collect::<Vec<_>>());
    let sequence = LogSequence { sequence_number: 5, start: 2, len: 2, head_value: 0, tail_value: 0 };
    assert!(sequence.entries(&log.log_entries).is_none());
    let sequence = LogSequence { sequence_number: 5, start: usize::MAX, len: 2, head_value: 0, tail_value: 0 };
    assert!(sequence.entries(&log.log_entries).is_none());
    let none = LogSequence { sequence_number: 0, start: 0, len: 0, head_value: 0, tail_value: 0 };
    assert!(none.is_empty());
    assert!(!none.is_valid());
    assert_eq!(0, none.entries(&log.log_entries).unwrap().len());
}
