use blake2b_ref::Blake2bBuilder;
use ckb_std::error::SysError;
use ckbfs::entry::{
    checksum_program_result, process_creation, process_update, spawn_args_v3, unpack_type_args, validate_backlinks,
    validate_update, verify_transaction, ChecksumProver, ProofRequest, Verdict,
};
use ckbfs::error::CKBFSError;
use ckbfs::hasher::program_entry;
use ckbfs::record::{decode_record, BackLink, FileRecord};
use ckbfs::tx::{CellView, TxView};
use ckbfs::type_id::calc_type_id;
use ckbfs_types::{CKBFSData, CKBFSDataNative};
use molecule::prelude::Entity;

const SCRIPT_HASH: [u8; 32] = [0x5a; 32];
const HASHER: [u8; 32] = [0xa1; 32];
const PREV_TX: [u8; 32] = [0x77; 32];
const FIRST_INPUT: [u8; 44] = [0x11; 44];

fn expected_type_id(first_input: &[u8], out_index: usize) -> [u8; 32] {
    let mut blake2b = Blake2bBuilder::new(32).personal(b"ckb-default-hash").build();
    blake2b.update(first_input);
    blake2b.update(&(out_index as u64).to_le_bytes());
    let mut verify_id = [0; 32];
    blake2b.finalize(&mut verify_id);
    verify_id
}

fn record_bytes(index: u32, checksum: u32, content_type: &str, filename: &str) -> Vec<u8> {
    let data: CKBFSData = CKBFSDataNative {
        index,
        checksum,
        content_type: content_type.to_string(),
        filename: filename.to_string(),
    }
    .into();
    data.as_slice().to_vec()
}

fn head(prev_hash: [u8; 32], prev_index: u32, prev_checksum: u32, next: u32, content: &[u8]) -> Vec<u8> {
    let mut w = b"CKBFS".to_vec();
    w.push(3);
    w.extend_from_slice(&prev_hash);
    w.extend_from_slice(&prev_index.to_le_bytes());
    w.extend_from_slice(&prev_checksum.to_le_bytes());
    w.extend_from_slice(&next.to_le_bytes());
    w.extend_from_slice(content);
    w
}

fn file_cell(data: Vec<u8>, type_args: Vec<u8>) -> CellView {
    CellView {
        data,
        data_hash: vec![0u8; 32],
        type_hash: Some(SCRIPT_HASH.to_vec()),
        type_args,
        out_point_tx_hash: PREV_TX.to_vec(),
    }
}

fn plain_cell() -> CellView {
    CellView {
        data: vec![],
        data_hash: vec![0u8; 32],
        type_hash: None,
        type_args: vec![],
        out_point_tx_hash: vec![0u8; 32],
    }
}

fn hasher_dep() -> CellView {
    CellView {
        data: vec![1, 2, 3],
        data_hash: HASHER.to_vec(),
        type_hash: None,
        type_args: vec![],
        out_point_tx_hash: vec![0u8; 32],
    }
}

fn type_id_args() -> Vec<u8> {
    expected_type_id(&FIRST_INPUT, 0).to_vec()
}

fn creation_tx(checksum: u32, witness: Vec<u8>) -> TxView {
    TxView {
        inputs: vec![plain_cell()],
        outputs: vec![file_cell(record_bytes(0, checksum, "plain/text", "Hello.txt"), type_id_args())],
        cell_deps: vec![hasher_dep()],
        witnesses: vec![witness],
        group_inputs: vec![],
        group_outputs: vec![0],
        script_hash: SCRIPT_HASH.to_vec(),
        first_input: Some(FIRST_INPUT.to_vec()),
    }
}

fn append_tx(new_checksum: u32, content_type: &str, filename: &str, witness: Vec<u8>) -> TxView {
    TxView {
        inputs: vec![file_cell(record_bytes(0, 0x11ea_02fe, "plain/text", "Hello.txt"), type_id_args())],
        outputs: vec![file_cell(record_bytes(1, new_checksum, content_type, filename), type_id_args())],
        cell_deps: vec![hasher_dep()],
        witnesses: vec![vec![], witness],
        group_inputs: vec![0],
        group_outputs: vec![0],
        script_hash: SCRIPT_HASH.to_vec(),
        first_input: Some(FIRST_INPUT.to_vec()),
    }
}

fn default_hasher() -> Vec<u8> {
    HASHER.to_vec()
}

#[test]
fn test_ckbfs() {
    let tx = creation_tx(0x11ea_02fe, head([0u8; 32], 0, 0, 0, b"HELLO CKBFS"));
    assert_eq!(verify_transaction(&tx, &default_hasher(), ChecksumProver::InProcess), Ok(Verdict::Valid));
}

#[test]
fn test_ckb_adler32() {
    let tx = TxView {
        inputs: vec![plain_cell()],
        outputs: vec![plain_cell(), plain_cell()],
        cell_deps: vec![],
        witnesses: vec![],
        group_inputs: vec![0],
        group_outputs: vec![],
        script_hash: vec![0u8; 32],
        first_input: Some(FIRST_INPUT.to_vec()),
    };
    assert_eq!(program_entry(&vec![], &tx), 0);
}

#[test]
fn creation_with_wrong_checksum_fails() {
    let tx = creation_tx(0x11ea_02fe ^ 1, head([0u8; 32], 0, 0, 0, b"HELLO CKBFS"));
    assert_eq!(verify_transaction(&tx, &default_hasher(), ChecksumProver::InProcess), Err(CKBFSError::ChecksumMismatch));
}

#[test]
fn creation_rejects_nonzero_backlink() {
    let tx = creation_tx(0x11ea_02fe, head([0u8; 32], 1, 0, 0, b"HELLO CKBFS"));
    assert_eq!(verify_transaction(&tx, &default_hasher(), ChecksumProver::InProcess), Err(CKBFSError::InvalidPreviousPosition));
    let tx = creation_tx(0x11ea_02fe, head(PREV_TX, 0, 0, 0, b"HELLO CKBFS"));
    assert_eq!(process_creation(&tx, 0, &default_hasher(), ChecksumProver::InProcess), Err(CKBFSError::InvalidPreviousPosition));
}

#[test]
fn creation_with_wrong_type_id_fails() {
    let mut tx = creation_tx(0x11ea_02fe, head([0u8; 32], 0, 0, 0, b"HELLO CKBFS"));
    tx.outputs[0].type_args = vec![0u8; 32];
    assert_eq!(verify_transaction(&tx, &default_hasher(), ChecksumProver::InProcess), Err(CKBFSError::InvalidTypeId));
    tx.outputs[0].type_args = vec![0u8; 31];
    assert_eq!(verify_transaction(&tx, &default_hasher(), ChecksumProver::InProcess), Err(CKBFSError::LengthNotEnough));
}

#[test]
fn creation_without_hasher_fails() {
    let mut tx = creation_tx(0x11ea_02fe, head([0u8; 32], 0, 0, 0, b"HELLO CKBFS"));
    tx.cell_deps = vec![];
    assert_eq!(verify_transaction(&tx, &default_hasher(), ChecksumProver::InProcess), Err(CKBFSError::NoChecksumHasherFound));
}

#[test]
fn creation_uses_hasher_named_in_type_args() {
    let mut tx = creation_tx(0x11ea_02fe, head([0u8; 32], 0, 0, 0, b"HELLO CKBFS"));
    let mut args = type_id_args();
    args.extend_from_slice(&[0xb2; 32]);
    tx.outputs[0].type_args = args;
    assert_eq!(verify_transaction(&tx, &default_hasher(), ChecksumProver::InProcess), Err(CKBFSError::NoChecksumHasherFound));
    tx.cell_deps[0].data_hash = vec![0xb2; 32];
    assert_eq!(verify_transaction(&tx, &default_hasher(), ChecksumProver::InProcess), Ok(Verdict::Valid));
}

#[test]
fn creation_with_undecodable_record_fails() {
    let mut tx = creation_tx(0x11ea_02fe, head([0u8; 32], 0, 0, 0, b"HELLO CKBFS"));
    tx.outputs[0].data = vec![1, 2, 3];
    assert_eq!(verify_transaction(&tx, &default_hasher(), ChecksumProver::InProcess), Err(CKBFSError::Encoding));
}

#[test]
fn append_with_resumed_checksum_succeeds() {
    let tx = append_tx(0x248a_0451, "plain/text", "Hello.txt", head(PREV_TX, 0, 0x11ea_02fe, 0, b" MORE"));
    assert_eq!(verify_transaction(&tx, &default_hasher(), ChecksumProver::InProcess), Ok(Verdict::Valid));
}

#[test]
fn append_with_checksum_from_scratch_succeeds() {
    let fresh = ckbfs::checksum::checksum(b"HELLO CKBFS MORE");
    let tx = append_tx(fresh, "plain/text", "Hello.txt", head(PREV_TX, 0, 0x11ea_02fe, 0, b" MORE"));
    assert_eq!(verify_transaction(&tx, &default_hasher(), ChecksumProver::InProcess), Ok(Verdict::Valid));
}

#[test]
fn append_with_flipped_bit_fails() {
    let tx = append_tx(0x248a_0451 ^ 0x10, "plain/text", "Hello.txt", head(PREV_TX, 0, 0x11ea_02fe, 0, b" MORE"));
    assert_eq!(verify_transaction(&tx, &default_hasher(), ChecksumProver::InProcess), Err(CKBFSError::ChecksumMismatch));
}

#[test]
fn append_pointing_elsewhere_fails() {
    let tx = append_tx(0x248a_0451, "plain/text", "Hello.txt", head([0u8; 32], 0, 0x11ea_02fe, 0, b" MORE"));
    assert_eq!(verify_transaction(&tx, &default_hasher(), ChecksumProver::InProcess), Err(CKBFSError::InvalidPreviousPosition));
    let tx = append_tx(0x248a_0451, "plain/text", "Hello.txt", head(PREV_TX, 3, 0x11ea_02fe, 0, b" MORE"));
    assert_eq!(process_update(&tx, 0, 0, &default_hasher(), ChecksumProver::InProcess), Err(CKBFSError::InvalidPreviousPosition));
}

#[test]
fn changing_filename_or_content_type_fails() {
    let tx = append_tx(0x248a_0451, "plain/text", "Other.txt", head(PREV_TX, 0, 0x11ea_02fe, 0, b" MORE"));
    assert_eq!(verify_transaction(&tx, &default_hasher(), ChecksumProver::InProcess), Err(CKBFSError::InvalidFieldUpdate));
    let tx = append_tx(1, "text/html", "Hello.txt", head(PREV_TX, 0, 0x11ea_02fe, 0, b" MORE"));
    assert_eq!(verify_transaction(&tx, &default_hasher(), ChecksumProver::InProcess), Err(CKBFSError::InvalidFieldUpdate));
}

#[test]
fn changing_type_args_fails() {
    let mut tx = append_tx(0x248a_0451, "plain/text", "Hello.txt", head(PREV_TX, 0, 0x11ea_02fe, 0, b" MORE"));
    tx.outputs[0].type_args = vec![0x42; 32];
    assert_eq!(verify_transaction(&tx, &default_hasher(), ChecksumProver::InProcess), Err(CKBFSError::InvalidFieldUpdate));
}

#[test]
fn transfer_with_empty_chain_succeeds() {
    let tx = append_tx(0x11ea_02fe, "plain/text", "Hello.txt", head(PREV_TX, 0, 0x11ea_02fe, 0, b""));
    assert_eq!(verify_transaction(&tx, &default_hasher(), ChecksumProver::InProcess), Ok(Verdict::Valid));
}

#[test]
fn transfer_that_adds_content_fails() {
    let tx = append_tx(0x11ea_02fe, "plain/text", "Hello.txt", head(PREV_TX, 0, 0x11ea_02fe, 0, b"X"));
    assert_eq!(verify_transaction(&tx, &default_hasher(), ChecksumProver::InProcess), Err(CKBFSError::ChecksumMismatch));
}

#[test]
fn destruction_is_forbidden() {
    let mut tx = append_tx(0x248a_0451, "plain/text", "Hello.txt", head(PREV_TX, 0, 0x11ea_02fe, 0, b" MORE"));
    tx.outputs = vec![plain_cell()];
    assert_eq!(verify_transaction(&tx, &default_hasher(), ChecksumProver::InProcess), Err(CKBFSError::DeletionForbidden));
    tx.cell_deps = vec![];
    tx.witnesses = vec![];
    assert_eq!(verify_transaction(&tx, &default_hasher(), ChecksumProver::InProcess), Err(CKBFSError::DeletionForbidden));
}

#[test]
fn duplicated_outputs_fail() {
    let mut tx = creation_tx(0x11ea_02fe, head([0u8; 32], 0, 0, 0, b"HELLO CKBFS"));
    let again = file_cell(record_bytes(0, 0x11ea_02fe, "plain/text", "Hello.txt"), type_id_args());
    tx.outputs.push(again);
    assert_eq!(verify_transaction(&tx, &default_hasher(), ChecksumProver::InProcess), Err(CKBFSError::DuplicatedOutputs));
}

#[test]
fn nothing_to_check_without_file_cells() {
    let mut tx = creation_tx(0, vec![]);
    tx.outputs = vec![plain_cell()];
    assert_eq!(verify_transaction(&tx, &default_hasher(), ChecksumProver::InProcess), Ok(Verdict::Valid));
}

fn link(tx_hash: [u8; 32], index: u32, checksum: u32) -> BackLink {
    BackLink { tx_hash: tx_hash.to_vec(), index, checksum }
}

fn record_with(index: u32, checksum: u32, backlinks: Vec<BackLink>) -> FileRecord {
    FileRecord {
        index,
        checksum,
        content_type: b"plain/text".to_vec(),
        filename: b"Hello.txt".to_vec(),
        backlinks: Some(backlinks),
    }
}

#[test]
fn append_requires_exactly_one_new_backlink() {
    let tx = append_tx(0x248a_0451, "plain/text", "Hello.txt", head(PREV_TX, 0, 0x11ea_02fe, 0, b" MORE"));
    let args = type_id_args();
    let old = || vec![link([1; 32], 4, 9), link([2; 32], 5, 10)];
    let input = record_with(0, 0x11ea_02fe, old());
    let same = record_with(1, 0x248a_0451, old());
    assert_eq!(
        validate_update(&tx, &input, &same, &args, &args, &PREV_TX, &default_hasher(), ChecksumProver::InProcess),
        Err(CKBFSError::InvalidPreviousPosition)
    );
    let mut two = old();
    two.push(link(PREV_TX, 0, 0x11ea_02fe));
    two.push(link(PREV_TX, 0, 0x11ea_02fe));
    let too_many = record_with(1, 0x248a_0451, two);
    assert_eq!(
        validate_update(&tx, &input, &too_many, &args, &args, &PREV_TX, &default_hasher(), ChecksumProver::InProcess),
        Err(CKBFSError::InvalidPreviousPosition)
    );
    let mut one = old();
    one.push(link(PREV_TX, 0, 0x11ea_02fe));
    let exact = record_with(1, 0x248a_0451, one);
    assert_eq!(validate_update(&tx, &input, &exact, &args, &args, &PREV_TX, &default_hasher(), ChecksumProver::InProcess), Ok(Verdict::Valid));
    let mut wrong_entry = old();
    wrong_entry.push(link(PREV_TX, 0, 0x11ea_02ff));
    let wrong = record_with(1, 0x248a_0451, wrong_entry);
    assert_eq!(
        validate_update(&tx, &input, &wrong, &args, &args, &PREV_TX, &default_hasher(), ChecksumProver::InProcess),
        Err(CKBFSError::InvalidPreviousPosition)
    );
    let mut altered = vec![link([1; 32], 4, 9), link([3; 32], 5, 10)];
    altered.push(link(PREV_TX, 0, 0x11ea_02fe));
    let rewritten = record_with(1, 0x248a_0451, altered);
    assert!(!validate_backlinks(&input, &rewritten, &PREV_TX));
}

#[test]
fn backlink_formats_must_agree() {
    let input = record_with(0, 1, vec![]);
    let mut output = record_with(1, 1, vec![]);
    output.backlinks = None;
    assert!(!validate_backlinks(&input, &output, &PREV_TX));
    let mut plain_in = record_with(0, 1, vec![]);
    plain_in.backlinks = None;
    assert!(validate_backlinks(&plain_in, &output, &PREV_TX));
}

#[test]
fn type_args_split() {
    let mut args = vec![1u8; 32];
    assert_eq!(unpack_type_args(&args), Ok((vec![1u8; 32], None)));
    args.extend_from_slice(&[2u8; 40]);
    assert_eq!(unpack_type_args(&args), Ok((vec![1u8; 32], Some(vec![2u8; 32]))));
    assert_eq!(unpack_type_args(&[0u8; 10]), Err(CKBFSError::LengthNotEnough));
}

#[test]
fn type_id_matches_default_hash() {
    assert_eq!(calc_type_id(&FIRST_INPUT, 0), expected_type_id(&FIRST_INPUT, 0));
    assert_eq!(calc_type_id(&FIRST_INPUT, 3), expected_type_id(&FIRST_INPUT, 3));
    assert_ne!(calc_type_id(&FIRST_INPUT, 0), calc_type_id(&FIRST_INPUT, 1));
}

#[test]
fn record_decoding() {
    let rec = decode_record(&record_bytes(7, 0x1234_5678, "plain/text", "Hello.txt")).unwrap();
    assert_eq!(rec.index, 7);
    assert_eq!(rec.checksum, 0x1234_5678);
    assert_eq!(rec.content_type, b"plain/text".to_vec());
    assert_eq!(rec.filename, b"Hello.txt".to_vec());
    assert!(rec.backlinks.is_none());
    assert!(decode_record(&[0u8; 3]).is_none());
}

#[test]
fn spawn_arguments() {
    let args = spawn_args_v3(1, 0x11ea_02fe, None);
    assert_eq!(args, vec![b"0x03".to_vec(), b"0x01000000".to_vec(), b"0xfe02ea11".to_vec()]);
    let args = spawn_args_v3(2, 3, Some(0x0a0b_0c0d));
    assert_eq!(args.len(), 4);
    assert_eq!(args[3], b"0x0d0c0b0a".to_vec());
}

#[test]
fn error_codes_and_host_errors() {
    assert_eq!(CKBFSError::DeletionForbidden.code(), 103);
    assert_eq!(CKBFSError::ChecksumMismatch.code(), 104);
    assert_eq!(CKBFSError::InvalidFieldUpdate.code(), 105);
    assert_eq!(CKBFSError::InvalidPreviousPosition.code(), 109);
    assert_eq!(CKBFSError::from(SysError::LengthNotEnough(3)), CKBFSError::LengthNotEnough);
    assert_eq!(CKBFSError::from(SysError::IndexOutOfBound), CKBFSError::IndexOutOfBound);
    assert_eq!(CKBFSError::from(SysError::Unknown(9)), CKBFSError::Unknown);
    assert_eq!(
        ckbfs::hasher_error::CKBFSError::from(SysError::ItemMissing),
        ckbfs::hasher_error::CKBFSError::ItemMissing
    );
}

#[test]
fn wrong_type_id_is_found_before_the_witness_is_read() {
    let mut tx = creation_tx(0x11ea_02fe, head([0u8; 32], 0, 0, 0, b"HELLO CKBFS"));
    tx.outputs[0].type_args = vec![0u8; 32];
    tx.witnesses = vec![];
    assert_eq!(verify_transaction(&tx, &default_hasher(), ChecksumProver::InProcess), Err(CKBFSError::InvalidTypeId));
}

#[test]
fn creation_with_previous_checksum_fails() {
    let tx = creation_tx(0x248a_0451, head([0u8; 32], 0, 0x11ea_02fe, 0, b" MORE"));
    assert_eq!(
        verify_transaction(&tx, &default_hasher(), ChecksumProver::InProcess),
        Err(CKBFSError::InvalidInitialData)
    );
}

#[test]
fn transfer_uses_the_head_previous_checksum() {
    let tx = append_tx(0x11ea_02fe, "plain/text", "Hello.txt", head(PREV_TX, 0, 0x0101_0101, 0, b""));
    assert_eq!(
        verify_transaction(&tx, &default_hasher(), ChecksumProver::InProcess),
        Err(CKBFSError::ChecksumMismatch)
    );
}

#[test]
fn out_of_process_creation_asks_for_the_named_program() {
    let tx = creation_tx(0x11ea_02fe, head([0u8; 32], 0, 0, 0, b"HELLO CKBFS"));
    let verdict = verify_transaction(&tx, &default_hasher(), ChecksumProver::OutOfProcess).unwrap();
    let expected = ProofRequest { code_hash: HASHER.to_vec(), witness_index: 0, checksum: 0x11ea_02fe, recover: None };
    assert_eq!(verdict, Verdict::RunChecksumProgram(expected));
    if let Verdict::RunChecksumProgram(request) = verdict {
        assert_eq!(request.exec_args(), vec![b"0x03".to_vec(), b"0x00000000".to_vec(), b"0xfe02ea11".to_vec()]);
        assert_eq!(program_entry(&request.exec_args(), &tx), 0);
    }
}

#[test]
fn out_of_process_append_passes_the_resume_value() {
    let tx = append_tx(0x248a_0451, "plain/text", "Hello.txt", head(PREV_TX, 0, 0x11ea_02fe, 0, b" MORE"));
    let verdict = verify_transaction(&tx, &default_hasher(), ChecksumProver::OutOfProcess).unwrap();
    match verdict {
        Verdict::RunChecksumProgram(request) => {
            assert_eq!(request.recover, Some(0x11ea_02fe));
            assert_eq!(request.exec_args()[3], b"0xfe02ea11".to_vec());
            assert_eq!(program_entry(&request.exec_args(), &tx), 0);
        },
        Verdict::Valid => panic!("a proof request was expected"),
    }
}

#[test]
fn out_of_process_rules_still_apply() {
    let tx = append_tx(0x248a_0451, "plain/text", "Other.txt", head(PREV_TX, 0, 0x11ea_02fe, 0, b" MORE"));
    assert_eq!(
        verify_transaction(&tx, &default_hasher(), ChecksumProver::OutOfProcess),
        Err(CKBFSError::InvalidFieldUpdate)
    );
}

#[test]
fn checksum_program_status() {
    assert_eq!(checksum_program_result(0), Ok(()));
    assert_eq!(checksum_program_result(-101), Err(CKBFSError::ChecksumMismatch));
    assert_eq!(checksum_program_result(1), Err(CKBFSError::ChecksumMismatch));
}
