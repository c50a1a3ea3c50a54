use ckbfs::checksum::{
    checksum, checksum_resumed, recover, recover_from_checksum, recover_from_checksum_str, validate, ChecksumState,
};
use ckbfs::hasher_error::CKBFSError;

#[test]
fn checksum_of_known_strings() {
    assert_eq!(checksum(b"Wikipedia"), 0x11e6_0398);
    assert_eq!(checksum(b"HELLO CKBFS"), 0x11ea_02fe);
}

#[test]
fn checksum_of_empty_input_is_one() {
    assert_eq!(checksum(b""), 1);
}

#[test]
fn resumed_checksum_equals_checksum_of_concatenation() {
    let prior = checksum(b"HELLO CKBFS");
    assert_eq!(checksum_resumed(prior, b" MORE"), 0x248a_0451);
    assert_eq!(checksum_resumed(prior, b" MORE"), checksum(b"HELLO CKBFS MORE"));
}

#[test]
fn resume_split_anywhere() {
    let data: Vec<u8> = (0u32..3000).map(|i| (i * 7 + 3) as u8).collect();
    let whole = checksum(&data);
    for cut in [0usize, 1, 17, 1500, 2999, 3000] {
        let head = checksum(&data[..cut]);
        assert_eq!(checksum_resumed(head, &data[cut..]), whole);
    }
}

#[test]
fn resume_with_empty_data_keeps_checksum() {
    let c = checksum(b"abc");
    assert_eq!(checksum_resumed(c, b""), c);
}

#[test]
fn state_write_slice_matches_checksum() {
    let mut state = ChecksumState::fresh();
    state.write_slice(b"HELLO ");
    state.write_slice(b"CKBFS");
    assert_eq!(state.checksum(), 0x11ea_02fe);
    let mut resumed = recover_from_checksum(0x11ea_02fe);
    resumed.write_slice(b" MORE");
    assert_eq!(resumed.checksum(), 0x248a_0451);
}

#[test]
fn recover_reads_little_endian_bytes() {
    let state = recover(&[0xfe, 0x02, 0xea, 0x11]).unwrap();
    assert_eq!(state.checksum(), 0x11ea_02fe);
    assert_eq!(recover(&[1, 2, 3]), Err(CKBFSError::Unknown));
    assert_eq!(recover(&[1, 2, 3, 4, 5]), Err(CKBFSError::Unknown));
}

#[test]
fn validate_compares_checksum() {
    assert!(validate(b"HELLO CKBFS", 0x11ea_02fe));
    assert!(!validate(b"HELLO CKBFS", 0x11ea_02ff));
}

#[test]
fn recover_from_checksum_text() {
    assert_eq!(recover_from_checksum_str("0xfe02ea11").unwrap().checksum(), 0x11ea_02fe);
    assert_eq!(recover_from_checksum_str("fe02ea11").unwrap().checksum(), 0x11ea_02fe);
    assert_eq!(recover_from_checksum_str("0xfe02ea"), Err(CKBFSError::Encoding));
    assert_eq!(recover_from_checksum_str("0xfe02ea1g"), Err(CKBFSError::Encoding));
}
