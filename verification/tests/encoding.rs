use vhdx::encode::pad_to;
use vhdx::encode::pad_to_4k;
use vhdx::encode::put4;
use vhdx::encode::put_bytes;
use vhdx::encode::put_fitted;
use vhdx::encode::put_u16;
use vhdx::encode::put_u32;
use vhdx::encode::put_u64;
use vhdx::encode::put_zeros;
use vhdx::guid::Guid;
use vhdx::parse_utils::t_guid;
use vhdx::parse_utils::t_u16;
use vhdx::parse_utils::t_u32;
use vhdx::parse_utils::t_u64;

#[test]
fn integers_are_appended_least_significant_byte_first() {
    let mut out = vec![0xAA];
    put_u16(&mut out, 0x0102);
    put_u32(&mut out, 0x03040506);
    put_u64(&mut out, 0x0708090A0B0C0D0E);
    put4(&mut out, 1, 2, 3, 4);
    assert_eq!(
        vec![
            0xAA, 0x02, 0x01, 0x06, 0x05, 0x04, 0x03, 0x0E, 0x0D, 0x0C, 0x0B, 0x0A, 0x09, 0x08,
            0x07, 1, 2, 3, 4
        ],
        out
    );
}

#[test]
fn what_is_encoded_decodes_to_itself() {
    for v in [0u64, 1, 0xFF, 0x100, 0xFFFF, 0x1_0000, 0xFFFF_FFFF, 0x1_0000_0000, u64::MAX, 0x0123_4567_89AB_CDEF] {
        let mut out = Vec::new();
        put_u64(&mut out, v);
        assert_eq!(v, t_u64(&out).unwrap().1);
        let mut out = Vec::new();
        put_u32(&mut out, v as u32);
        assert_eq!(v as u32, t_u32(&out).unwrap().1);
        let mut out = Vec::new();
        put_u16(&mut out, v as u16);
        assert_eq!(v as u16, t_u16(&out).unwrap().1);
    }
    for value in [0u128, 1, u128::MAX, 0x2DC27766_F623_4200_9D64_115E9BFD4A08] {
        let bytes = Guid { value }.to_bytes_le();
        assert_eq!(value, t_guid(&bytes).unwrap().1.value);
    }
}

#[test]
fn zeros_fields_and_padding() {
    let mut out = vec![7];
    put_zeros(&mut out, 3);
    put_zeros(&mut out, 0);
    put_bytes(&mut out, &[8, 9]);
    put_bytes(&mut out, &[]);
    assert_eq!(vec![7, 0, 0, 0, 8, 9], out);
    put_fitted(&mut out, &[1, 2, 3], 2);
    put_fitted(&mut out, &[4], 3);
    put_fitted(&mut out, &[5], 0);
    assert_eq!(vec![7, 0, 0, 0, 8, 9, 1, 2, 4, 0, 0], out);
    pad_to(&mut out, 5);
    assert_eq!(11, out.len());
    pad_to(&mut out, 13);
    assert_eq!(vec![7, 0, 0, 0, 8, 9, 1, 2, 4, 0, 0, 0, 0], out);
    pad_to_4k(&mut out);
    assert_eq!(4096, out.len());
    assert_eq!(&[0u8; 4085][..], &out[11..]);
    pad_to_4k(&mut out);
    assert_eq!(4096, out.len());
    out.push(1);
    pad_to_4k(&mut out);
    assert_eq!(8192, out.len());
    let mut empty: Vec<u8> = Vec::new();
    pad_to_4k(&mut empty);
    assert_eq!(0, empty.len());
}
