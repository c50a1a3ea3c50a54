use ckbfs::hasher_error::CKBFSError;
use ckbfs::hex::{arg_to_u32, arg_to_u64, arg_to_u8, arg_to_vec_u8, encode_hex_0x, strip_prefix_0x, u8_to_cstring};

#[test]
fn strip_prefix_removes_only_leading_0x() {
    assert_eq!(strip_prefix_0x("0xabcd"), "abcd");
    assert_eq!(strip_prefix_0x("abcd"), "abcd");
    assert_eq!(strip_prefix_0x("0x"), "");
    assert_eq!(strip_prefix_0x("x0ab"), "x0ab");
    assert_eq!(strip_prefix_0x("0x\u{e9}"), "\u{e9}");
}

#[test]
fn numeric_arguments_are_little_endian_hex() {
    assert_eq!(arg_to_u8(b"0x03"), Ok(3));
    assert_eq!(arg_to_u32(b"0x01000000"), Ok(1));
    assert_eq!(arg_to_u32(b"0xfe02ea11"), Ok(0x11ea_02fe));
    assert_eq!(arg_to_u32(b"0xFE02EA11"), Ok(0x11ea_02fe));
    assert_eq!(arg_to_u64(b"0x0100000000000001"), Ok(0x0100_0000_0000_0001));
}

#[test]
fn numeric_argument_errors() {
    assert_eq!(arg_to_u32(b"01x"), Err(CKBFSError::Encoding));
    assert_eq!(arg_to_u32(b""), Err(CKBFSError::Encoding));
    assert_eq!(arg_to_u32(b"+"), Err(CKBFSError::Encoding));
    assert_eq!(arg_to_u32(b"-1"), Err(CKBFSError::Encoding));
    assert_eq!(arg_to_u8(b"256"), Err(CKBFSError::Encoding));
    assert_eq!(arg_to_u32(b"0x010000"), Err(CKBFSError::Encoding));
    assert_eq!(arg_to_u32(b"0x0100000"), Err(CKBFSError::Encoding));
    assert_eq!(arg_to_u32(b"0x0100000g"), Err(CKBFSError::Encoding));
}

#[test]
fn decimal_numeric_arguments() {
    assert_eq!(arg_to_u32(b"01000000"), Ok(1_000_000));
    assert_eq!(arg_to_u8(b"255"), Ok(255));
    assert_eq!(arg_to_u8(b"+3"), Ok(3));
    assert_eq!(arg_to_u32(b"4294967295"), Ok(u32::MAX));
    assert_eq!(arg_to_u64(b"18446744073709551615"), Ok(u64::MAX));
    assert_eq!(arg_to_u64(b"18446744073709551616"), Err(CKBFSError::Encoding));
}

#[test]
fn byte_arguments() {
    assert_eq!(arg_to_vec_u8(b"0x0102ff"), Ok(vec![1, 2, 0xff]));
    assert_eq!(arg_to_vec_u8(b"0x"), Ok(vec![]));
    assert_eq!(arg_to_vec_u8(b"0102"), Err(CKBFSError::Encoding));
    assert_eq!(arg_to_vec_u8(b"0x012"), Err(CKBFSError::Encoding));
}

#[test]
fn encode_hex_lower_case_with_prefix() {
    assert_eq!(encode_hex_0x(&[0xab, 0x01, 0x00]), b"0xab0100".to_vec());
    assert_eq!(encode_hex_0x(&[]), b"0x".to_vec());
    assert_eq!(u8_to_cstring(3), b"0x03".to_vec());
    assert_eq!(u8_to_cstring(0xfe), b"0xfe".to_vec());
}

#[test]
fn encoded_numbers_decode_back() {
    let arg = encode_hex_0x(&0x11ea_02feu32.to_le_bytes());
    assert_eq!(arg_to_u32(&arg), Ok(0x11ea_02fe));
}
