use vhdx::bat::BatEntryState;
use vhdx::bits_parsers::t_2_flags_u32;
use vhdx::bits_parsers::t_3_flags_u32;
use vhdx::bits_parsers::t_file_offset;
use vhdx::bits_parsers::t_flag_u8;
use vhdx::bits_parsers::t_reserved;
use vhdx::bits_parsers::t_state;
use vhdx::bits_parsers::take_bits;
use vhdx::error::ParseTag;
use vhdx::error::VhdxParseError;

fn short(len: usize) -> VhdxParseError {
    VhdxParseError { offset: len, tag: ParseTag::Bits }
}

#[test]
fn bits_are_taken_from_the_top_of_a_byte() {
    let bytes = [0b1010_0000u8, 0xFF];
    let (rest, a) = t_flag_u8((&bytes, 0)).unwrap();
    assert!(a);
    assert_eq!((&bytes[..], 1), rest);
    let (rest, b) = t_flag_u8(rest).unwrap();
    assert!(!b);
    let (rest, c) = t_flag_u8(rest).unwrap();
    assert!(c);
    assert_eq!((&bytes[..], 3), rest);
    // The last bit of a byte moves the input on by a byte.
    let (rest, d) = t_flag_u8((&bytes, 7)).unwrap();
    assert!(!d);
    assert_eq!((&bytes[1..], 0), rest);
    assert_eq!(Err(short(0)), t_flag_u8((&[], 0)));
}

#[test]
fn numbers_of_several_bits() {
    let bytes = [0x12u8, 0x34, 0x56, 0x78, 0x9A, 0xBC, 0xDE, 0xF0, 0x0F];
    assert_eq!(Ok(((&bytes[..], 0), 0)), take_bits((&bytes, 0), 0));
    assert_eq!(Ok(((&bytes[..], 4), 0x1)), take_bits((&bytes, 0), 4));
    assert_eq!(Ok(((&bytes[1..], 0), 0x12)), take_bits((&bytes, 0), 8));
    assert_eq!(Ok(((&bytes[1..], 4), 0x123)), take_bits((&bytes, 0), 12));
    assert_eq!(Ok(((&bytes[2..], 0), 0x234)), take_bits((&bytes, 4), 12));
    assert_eq!(Ok(((&bytes[8..], 0), 0x1234_5678_9ABC_DEF0)), take_bits((&bytes, 0), 64));
    assert_eq!(Ok(((&bytes[8..], 4), 0x2345_6789_ABCD_EF00)), take_bits((&bytes, 4), 64));
    assert_eq!(Ok(((&[0xFFu8][..], 0), u64::MAX)), take_bits((&[0xFF; 9], 0), 64));
    assert_eq!(Err(short(8)), take_bits((&bytes[..8], 1), 64));
    assert_eq!(Ok(((&bytes[8..8], 0), 0x1234_5678_9ABC_DEF0)), take_bits((&bytes[..8], 0), 64));
    assert_eq!(Ok(((&bytes[5..], 4), 0x123_4567_89AB)), t_file_offset((&bytes, 0)));
    assert_eq!(Err(short(5)), t_file_offset((&bytes[..5], 0)));
    assert_eq!(Ok(((&bytes[2..], 1), 0x2468)), t_reserved((&bytes, 0), 17));
    assert_eq!(Err(short(2)), t_reserved((&bytes[..2], 0), 17));
}

#[test]
fn flags_at_the_end_of_a_byte() {
    for value in 0u8..=255 {
        let bytes = [value, 0x55];
        let (rest, flags) = t_3_flags_u32((&bytes, 0)).unwrap();
        assert_eq!((value & 1 != 0, value & 2 != 0, value & 4 != 0), flags);
        assert_eq!((&bytes[1..], 0), rest);
        let (rest, flags) = t_2_flags_u32((&bytes, 0)).unwrap();
        assert_eq!((value & 4 != 0, value & 8 != 0), flags);
        assert_eq!((&bytes[..], 6), rest);
    }
    assert_eq!(Err(short(0)), t_3_flags_u32((&[], 0)));
    assert_eq!(Err(short(0)), t_2_flags_u32((&[], 0)));
    assert_eq!(Err(short(1)), t_3_flags_u32((&[0xFF], 1)));
    assert_eq!(Err(short(1)), t_2_flags_u32((&[0xFF], 3)));
    assert!(t_2_flags_u32((&[0xFF], 2)).is_ok());
    // Begun in the middle of a byte, the flags come from the next byte.
    let bytes = [0x00u8, 0b0101_0000, 0x33];
    assert_eq!((true, false, true), t_3_flags_u32((&bytes, 4)).unwrap().1);
    let (rest, flags) = t_2_flags_u32((&bytes, 4)).unwrap();
    assert_eq!((true, false), flags);
    assert_eq!((&bytes[1..], 2), rest);
    let (rest, flags) = t_2_flags_u32((&bytes, 5)).unwrap();
    assert_eq!((false, true), flags);
    assert_eq!((&bytes[1..], 3), rest);
}

#[test]
fn states_of_three_bits() {
    let expected = [
        BatEntryState::NotPresent,
        BatEntryState::Undefined,
        BatEntryState::Zero,
        BatEntryState::Unmapped,
        BatEntryState::Unknown,
        BatEntryState::Unknown,
        BatEntryState::FullyPresent,
        BatEntryState::PartiallyPresent,
    ];
    for (value, state) in expected.iter().enumerate() {
        let bytes = [(value as u8) << 5];
        assert_eq!(Ok(((&bytes[..], 3), *state)), t_state((&bytes, 0)));
    }
    assert_eq!(Err(short(1)), t_state((&[0], 6)));
}
