//! The state transition validator: classifies what a transaction does to a file
//! record, enforces the lifecycle rules, and has the checksum proved.
use vstd::prelude::*;

use crate::error::CKBFSError;
use crate::hasher::{chain_status, validate_chain};
use crate::hex::{encode_hex_0x, slice_from, u8_to_cstring};
use crate::record::{BackLinkView, FileRecord, RecordView, decode_record, decoded_view, record_fields};
use crate::tx::{CellView, Source, TxView, cell_at, locate_cell};
use crate::type_id::{calc_type_id, ckb_hash, le_bytes_u64};
use crate::witness::{le_u32_at, witness_seqs};
use crate::checksum::read_le_u32;

verus! {

/// Whether `a` and `b` hold the same bytes.
pub fn bytes_eq(a: &[u8], b: &[u8]) -> (r: bool)
    ensures
        r == (a@ == b@),
{
    if a.len() != b.len() {
        return false;
    }
    let mut i: usize = 0;
    while i < a.len()
        invariant
            i <= a@.len(),
            a@.len() == b@.len(),
            forall|k: int| 0 <= k < i ==> a@[k] == b@[k],
        decreases a@.len() - i,
    {
        if a[i] != b[i] {
            return false;
        }
        i = i + 1;
    }
    assert(a@ =~= b@);
    true
}

/// The cell's record, decoded: `ItemMissing` where there is no such cell, `Encoding`
/// where its data is no record.
pub open spec fn record_at(tx: &TxView, source: Source, index: int) -> Result<RecordView, CKBFSError> {
    match cell_at(tx, source, index) {
        None => Err(CKBFSError::ItemMissing),
        Some(cell) => match record_fields(cell.data@) {
            None => Err(CKBFSError::Encoding),
            Some(f) => Ok(decoded_view(f)),
        },
    }
}

/// Loads and decodes the record of the cell that `index` names in `source`.
pub fn load_ckbfs_raw_data(tx: &TxView, index: usize, source: Source) -> (r: Result<FileRecord, CKBFSError>)
    ensures
        match (r, record_at(tx, source, index as int)) {
            (Ok(rec), Ok(v)) => rec@ == v,
            (Err(e), Err(f)) => e == f,
            _ => false,
        },
{
    let data = match crate::tx::load_cell_data(tx, source, index) {
        Ok(d) => d,
        Err(_) => return Err(CKBFSError::ItemMissing),
    };
    match decode_record(data.as_slice()) {
        Some(rec) => Ok(rec),
        None => Err(CKBFSError::Encoding),
    }
}

/// The type script arguments of a cell, empty where it has no type script or there is
/// no such cell.
pub open spec fn type_args_at(tx: &TxView, source: Source, index: int) -> Seq<u8> {
    match cell_at(tx, source, index) {
        Some(cell) => cell.type_args@,
        None => Seq::empty(),
    }
}

/// The type script arguments of the cell that `index` names in `source`.
pub fn load_type_args(tx: &TxView, index: usize, source: Source) -> (r: Vec<u8>)
    ensures
        r@ == type_args_at(tx, source, index as int),
{
    match locate_cell(tx, source, index) {
        Some(p) => {
            let cells = match source {
                Source::Input | Source::GroupInput => &tx.inputs,
                Source::Output | Source::GroupOutput => &tx.outputs,
                _ => &tx.cell_deps,
            };
            slice_from(cells[p].type_args.as_slice(), 0)
        },
        None => Vec::new(),
    }
}

/// The type id (`args[0..32]`) and, where given, the identity of the checksum
/// validator (`args[32..64]`).
pub open spec fn type_args_fields(args: Seq<u8>) -> Result<(Seq<u8>, Option<Seq<u8>>), CKBFSError> {
    if args.len() < 32 {
        Err(CKBFSError::LengthNotEnough)
    } else {
        Ok(
            (
                args.subrange(0, 32),
                if args.len() >= 64 {
                    Some(args.subrange(32, 64))
                } else {
                    None
                },
            ),
        )
    }
}

/// Splits type script arguments into the type id and the optional identity of the
/// checksum validator.
pub fn unpack_type_args(args: &[u8]) -> (r: Result<(Vec<u8>, Option<Vec<u8>>), CKBFSError>)
    ensures
        match (r, type_args_fields(args@)) {
            (Ok((id, code)), Ok((sid, scode))) => id@ == sid && match (code, scode) {
                (Some(c), Some(s)) => c@ == s,
                (None, None) => true,
                _ => false,
            },
            (Err(e), Err(f)) => e == f,
            _ => false,
        },
{
    if args.len() < 32 {
        return Err(CKBFSError::LengthNotEnough);
    }
    let type_id = sub_bytes(args, 0, 32);
    let checksum_code_hash = if args.len() >= 64 {
        Some(sub_bytes(args, 32, 64))
    } else {
        None
    };
    Ok((type_id, checksum_code_hash))
}

/// The bytes of `s` from `start` up to `end`.
pub fn sub_bytes(s: &[u8], start: usize, end: usize) -> (r: Vec<u8>)
    requires
        start <= end <= s@.len(),
    ensures
        r@ == s@.subrange(start as int, end as int),
{
    let mut out: Vec<u8> = Vec::new();
    let mut i: usize = start;
    while i < end
        invariant
            start <= i <= end,
            end <= s@.len(),
            out@ == s@.subrange(start as int, i as int),
        decreases end - i,
    {
        out.push(s[i]);
        i = i + 1;
        assert(out@ =~= s@.subrange(start as int, i as int));
    }
    out
}

/// Whether `type_id` is the one that the transaction's first input and the output
/// position give.
pub open spec fn type_id_valid(tx: &TxView, type_id: Seq<u8>, output_index: int) -> bool {
    match tx.first_input {
        Some(first) => type_id == ckb_hash(first@ + le_bytes_u64(output_index as u64)),
        None => false,
    }
}

/// Checks `type_id` against the one derived from the first input and `output_index`.
pub fn validate_type_id(type_id: &[u8], output_index: usize, tx: &TxView) -> (r: bool)
    ensures
        r == type_id_valid(tx, type_id@, output_index as int),
{
    match &tx.first_input {
        Some(first_input) => {
            let expected_id = calc_type_id(first_input.as_slice(), output_index);
            bytes_eq(type_id, &expected_id)
        },
        None => false,
    }
}

/// The all-zero transaction hash that a creation points back at.
pub open spec fn zero_hash() -> Seq<u8> {
    Seq::new(32, |i: int| 0u8)
}

/// Whether the head segment at `witness_index` points back at `(tx_hash, index)`:
/// bytes `[6, 38)` are the transaction hash, `[38, 42)` the little-endian witness index.
pub open spec fn previous_position_outcome(
    ws: Seq<Seq<u8>>,
    witness_index: int,
    tx_hash: Seq<u8>,
    index: u32,
) -> Result<(), CKBFSError> {
    if witness_index >= ws.len() {
        Err(CKBFSError::IndexOutOfBound)
    } else if ws[witness_index].len() < 50 {
        Err(CKBFSError::LengthNotEnough)
    } else if ws[witness_index].subrange(6, 38) != tx_hash || le_u32_at(ws[witness_index], 38)
        != index {
        Err(CKBFSError::InvalidPreviousPosition)
    } else {
        Ok(())
    }
}

/// Checks that the head segment at `witness_index` points back at the transaction
/// `expected_tx_hash` and its witness `expected_witness_index`.
pub fn validate_witness_previous_position(
    tx: &TxView,
    witness_index: usize,
    expected_tx_hash: &[u8],
    expected_witness_index: u32,
) -> (r: Result<(), CKBFSError>)
    ensures
        r == previous_position_outcome(
            witness_seqs(&tx.witnesses),
            witness_index as int,
            expected_tx_hash@,
            expected_witness_index,
        ),
{
    if witness_index >= tx.witnesses.len() {
        return Err(CKBFSError::IndexOutOfBound);
    }
    let head_witness = &tx.witnesses[witness_index];
    if head_witness.len() < 50 {
        return Err(CKBFSError::LengthNotEnough);
    }
    let witness_previous_tx_hash = sub_bytes(head_witness.as_slice(), 6, 38);
    let witness_previous_index = read_le_u32(head_witness.as_slice(), 38);
    if !bytes_eq(&witness_previous_tx_hash, expected_tx_hash) || witness_previous_index
        != expected_witness_index {
        return Err(CKBFSError::InvalidPreviousPosition);
    }
    Ok(())
}

/// Whether one of the cell dependencies holds the program whose data hash is `code_hash`.
pub open spec fn hasher_present(tx: &TxView, code_hash: Seq<u8>) -> bool {
    exists|i: int| 0 <= i < tx.cell_deps@.len() && #[trigger] tx.cell_deps@[i].data_hash@ == code_hash
}

/// Finds the cell dependency whose data hash is `code_hash`.
pub fn find_checksum_hasher(tx: &TxView, code_hash: &[u8]) -> (r: Option<usize>)
    ensures
        r is Some <==> hasher_present(tx, code_hash@),
        r is Some ==> r->Some_0 < tx.cell_deps@.len() && tx.cell_deps@[r->Some_0 as int].data_hash@
            == code_hash@,
{
    let mut i: usize = 0;
    while i < tx.cell_deps.len()
        invariant
            i <= tx.cell_deps@.len(),
            forall|k: int| 0 <= k < i ==> #[trigger] tx.cell_deps@[k].data_hash@ != code_hash@,
        decreases tx.cell_deps@.len() - i,
    {
        if bytes_eq(tx.cell_deps[i].data_hash.as_slice(), code_hash) {
            return Some(i);
        }
        i = i + 1;
    }
    None
}

/// How the checksum of a file update is proved: by the library's own chain check, or
/// by running the checksum validator program that the file names.
#[derive(Debug, Clone, Copy, PartialEq, Eq, Structural)]
pub enum ChecksumProver {
    InProcess,
    OutOfProcess,
}

/// A request to run the checksum validator program whose data hash is `code_hash` on
/// the witness chain at `witness_index`, expecting `checksum`, resumed from `recover`
/// where given.
#[derive(Debug, PartialEq, Eq)]
pub struct ProofRequest {
    pub code_hash: Vec<u8>,
    pub witness_index: u32,
    pub checksum: u32,
    pub recover: Option<u32>,
}

/// What a proof request says.
pub struct ProofRequestView {
    pub code_hash: Seq<u8>,
    pub witness_index: u32,
    pub checksum: u32,
    pub recover: Option<u32>,
}

impl View for ProofRequest {
    type V = ProofRequestView;

    open spec fn view(&self) -> ProofRequestView {
        ProofRequestView {
            code_hash: self.code_hash@,
            witness_index: self.witness_index,
            checksum: self.checksum,
            recover: self.recover,
        }
    }
}

/// The verdict on a transaction that broke no rule: valid, or valid once the named
/// checksum validator program accepts the request.
#[derive(Debug, PartialEq, Eq)]
pub enum Verdict {
    Valid,
    RunChecksumProgram(ProofRequest),
}

/// What a verdict says.
pub enum VerdictView {
    Valid,
    RunChecksumProgram(ProofRequestView),
}

impl View for Verdict {
    type V = VerdictView;

    open spec fn view(&self) -> VerdictView {
        match self {
            Verdict::Valid => VerdictView::Valid,
            Verdict::RunChecksumProgram(req) => VerdictView::RunChecksumProgram(req@),
        }
    }
}

/// The outcome of having the checksum validator named `code_hash` prove that the
/// witness chain at `witness_index` has the checksum `checksum` (resumed from `resume`
/// where given): the program must be among the cell dependencies; in process the chain
/// is checked here, out of process the program is to be run.
pub open spec fn proof_outcome(
    tx: &TxView,
    witness_index: u32,
    checksum: u32,
    code_hash: Seq<u8>,
    resume: Option<u32>,
    prover: ChecksumProver,
) -> Result<VerdictView, CKBFSError> {
    if !hasher_present(tx, code_hash) {
        Err(CKBFSError::NoChecksumHasherFound)
    } else {
        match prover {
            ChecksumProver::InProcess => if chain_status(
                witness_seqs(&tx.witnesses),
                witness_index,
                checksum,
                resume,
            ) == 0 {
                Ok(VerdictView::Valid)
            } else {
                Err(CKBFSError::ChecksumMismatch)
            },
            ChecksumProver::OutOfProcess => Ok(
                VerdictView::RunChecksumProgram(
                    ProofRequestView { code_hash, witness_index, checksum, recover: resume },
                ),
            ),
        }
    }
}

/// Whether the verdict `v` is the outcome `s`.
pub open spec fn verdict_matches(r: Result<Verdict, CKBFSError>, s: Result<VerdictView, CKBFSError>) -> bool {
    match (r, s) {
        (Ok(v), Ok(w)) => v@ == w,
        (Err(e), Err(f)) => e == f,
        _ => false,
    }
}

/// The validator program that a file names, else the default one.
pub open spec fn chosen_code_hash(code_hash: Option<Seq<u8>>, default_code_hash: Seq<u8>) -> Seq<u8> {
    match code_hash {
        Some(c) => c,
        None => default_code_hash,
    }
}

/// The value view of an optional program identity.
pub open spec fn opt_view(code_hash: Option<Vec<u8>>) -> Option<Seq<u8>> {
    match code_hash {
        Some(c) => Some(c@),
        None => None,
    }
}

fn prove_checksum(
    tx: &TxView,
    witness_index: u32,
    checksum: u32,
    code_hash: &Option<Vec<u8>>,
    default_code_hash: &Vec<u8>,
    resume: Option<u32>,
    prover: ChecksumProver,
) -> (r: Result<Verdict, CKBFSError>)
    ensures
        verdict_matches(
            r,
            proof_outcome(
                tx,
                witness_index,
                checksum,
                chosen_code_hash(opt_view(*code_hash), default_code_hash@),
                resume,
                prover,
            ),
        ),
{
    let ghost chosen = chosen_code_hash(opt_view(*code_hash), default_code_hash@);
    let program = match code_hash {
        Some(c) => c,
        None => default_code_hash,
    };
    assert(program@ == chosen);
    if find_checksum_hasher(tx, program.as_slice()).is_none() {
        return Err(CKBFSError::NoChecksumHasherFound);
    }
    let result = match prover {
        ChecksumProver::InProcess => {
            if validate_chain(&tx.witnesses, witness_index, checksum, resume) == 0 {
                let r = Ok(Verdict::Valid);
                assert(verdict_matches(r, proof_outcome(tx, witness_index, checksum, chosen, resume, prover)));
                r
            } else {
                let r = Err(CKBFSError::ChecksumMismatch);
                assert(verdict_matches(r, proof_outcome(tx, witness_index, checksum, chosen, resume, prover)));
                r
            }
        },
        ChecksumProver::OutOfProcess => {
            let program = slice_from(program.as_slice(), 0);
            assert(program@ =~= chosen);
            let req = ProofRequest { code_hash: program, witness_index, checksum, recover: resume };
            assert(req@ == ProofRequestView { code_hash: chosen, witness_index, checksum, recover: resume });
            let r = Ok(Verdict::RunChecksumProgram(req));
            assert(verdict_matches(r, proof_outcome(tx, witness_index, checksum, chosen, resume, prover)));
            r
        },
    };
    result
}

/// Has the checksum validator named by `code_hash` (else the default one) prove that
/// the witness chain at `witness_index` has the checksum `checksum`, with no resume
/// value: the head segment's previous checksum decides.
pub fn validate_by_spawn_v3(
    tx: &TxView,
    witness_index: u32,
    checksum: u32,
    code_hash: &Option<Vec<u8>>,
    default_code_hash: &Vec<u8>,
    prover: ChecksumProver,
) -> (r: Result<Verdict, CKBFSError>)
    ensures
        verdict_matches(
            r,
            proof_outcome(
                tx,
                witness_index,
                checksum,
                chosen_code_hash(opt_view(*code_hash), default_code_hash@),
                None,
                prover,
            ),
        ),
{
    prove_checksum(tx, witness_index, checksum, code_hash, default_code_hash, None, prover)
}

/// As `validate_by_spawn_v3`, with the chain's content resumed from `recover`.
pub fn validate_by_spawn_v3_with_recover(
    tx: &TxView,
    witness_index: u32,
    checksum: u32,
    recover: u32,
    code_hash: &Option<Vec<u8>>,
    default_code_hash: &Vec<u8>,
    prover: ChecksumProver,
) -> (r: Result<Verdict, CKBFSError>)
    ensures
        verdict_matches(
            r,
            proof_outcome(
                tx,
                witness_index,
                checksum,
                chosen_code_hash(opt_view(*code_hash), default_code_hash@),
                Some(recover),
                prover,
            ),
        ),
{
    prove_checksum(tx, witness_index, checksum, code_hash, default_code_hash, Some(recover), prover)
}

/// The four little-endian bytes of `v`.
pub open spec fn le_bytes_u32(v: u32) -> Seq<u8> {
    le_bytes_u64(v as u64).subrange(0, 4)
}

/// `0x` and the lower-case hex digits of `b`.
pub open spec fn hex_arg(b: Seq<u8>) -> Seq<u8> {
    seq![0x30u8, 0x78u8] + crate::hex::lower_hex(b)
}

/// The arguments with which the checksum validator program checks the witness chain at
/// `witness_index` against `checksum`: the chain mode, then each number as `0x` and its
/// little-endian hex digits.
pub open spec fn spawn_args(witness_index: u32, checksum: u32, recover: Option<u32>) -> Seq<Seq<u8>> {
    let base = seq![
        hex_arg(seq![3u8]),
        hex_arg(le_bytes_u32(witness_index)),
        hex_arg(le_bytes_u32(checksum)),
    ];
    match recover {
        Some(c) => base.push(hex_arg(le_bytes_u32(c))),
        None => base,
    }
}

/// Builds the arguments of the checksum validator program for the chain at
/// `witness_index`, the expected `checksum` and the optional resume value.
pub fn spawn_args_v3(witness_index: u32, checksum: u32, recover: Option<u32>) -> (r: Vec<Vec<u8>>)
    ensures
        crate::hasher::arg_seqs(&r) == spawn_args(witness_index, checksum, recover),
{
    let mut args: Vec<Vec<u8>> = Vec::new();
    args.push(u8_to_cstring(3u8));
    let index_bytes = le4(witness_index);
    args.push(encode_hex_0x(index_bytes.as_slice()));
    let checksum_bytes = le4(checksum);
    args.push(encode_hex_0x(checksum_bytes.as_slice()));
    match recover {
        Some(c) => {
            let recover_bytes = le4(c);
            args.push(encode_hex_0x(recover_bytes.as_slice()));
        },
        None => {},
    }
    assert(crate::hasher::arg_seqs(&args) =~= spawn_args(witness_index, checksum, recover));
    args
}

impl ProofRequest {
    /// The arguments with which the checksum validator program is run.
    pub fn exec_args(&self) -> (r: Vec<Vec<u8>>)
        ensures
            crate::hasher::arg_seqs(&r) == spawn_args(self.witness_index, self.checksum, self.recover),
    {
        spawn_args_v3(self.witness_index, self.checksum, self.recover)
    }
}

/// The result of running the checksum validator program, from its exit status: it
/// accepts with 0, and anything else is a checksum mismatch.
pub fn checksum_program_result(status: i8) -> (r: Result<(), CKBFSError>)
    ensures
        status == 0 ==> r == Ok::<(), CKBFSError>(()),
        status != 0 ==> r == Err::<(), CKBFSError>(CKBFSError::ChecksumMismatch),
{
    if status == 0 {
        Ok(())
    } else {
        Err(CKBFSError::ChecksumMismatch)
    }
}

fn le4(v: u32) -> (r: Vec<u8>)
    ensures
        r@ == le_bytes_u32(v),
{
    let all = crate::type_id::u64_to_le_bytes(v as u64);
    sub_bytes(all.as_slice(), 0, 4)
}

/// The previous checksum that the head segment at `witness_index` carries.
pub open spec fn head_previous_checksum(ws: Seq<Seq<u8>>, witness_index: int) -> int {
    le_u32_at(ws[witness_index], 42)
}

/// The outcome of validating the creation of the file record at output `index`: the
/// record decodes, its type id is the derived one, its head segment points back at
/// nothing and carries no previous checksum, and its checksum is proved over the chain
/// from a fresh state.
pub open spec fn creation_outcome(
    tx: &TxView,
    index: int,
    default_code_hash: Seq<u8>,
    prover: ChecksumProver,
) -> Result<VerdictView, CKBFSError> {
    match record_at(tx, Source::Output, index) {
        Err(e) => Err(e),
        Ok(rec) => match type_args_fields(type_args_at(tx, Source::Output, index)) {
            Err(e) => Err(e),
            Ok((type_id, code_hash)) => if !type_id_valid(tx, type_id, index) {
                Err(CKBFSError::InvalidTypeId)
            } else {
                match previous_position_outcome(
                    witness_seqs(&tx.witnesses),
                    rec.index as int,
                    zero_hash(),
                    0,
                ) {
                    Err(e) => Err(e),
                    Ok(_) => if head_previous_checksum(witness_seqs(&tx.witnesses), rec.index as int)
                        != 0 {
                        Err(CKBFSError::InvalidInitialData)
                    } else {
                        proof_outcome(
                            tx,
                            rec.index,
                            rec.checksum,
                            chosen_code_hash(code_hash, default_code_hash),
                            None,
                            prover,
                        )
                    },
                }
            },
        },
    }
}

/// Validates the creation of the file record at output `index`.
pub fn process_creation(
    tx: &TxView,
    index: usize,
    default_code_hash: &Vec<u8>,
    prover: ChecksumProver,
) -> (r: Result<Verdict, CKBFSError>)
    ensures
        verdict_matches(r, creation_outcome(tx, index as int, default_code_hash@, prover)),
{
    let data = load_ckbfs_raw_data(tx, index, Source::Output)?;
    let type_script_args = load_type_args(tx, index, Source::Output);
    let (type_id, checksum_code_hash) = unpack_type_args(type_script_args.as_slice())?;
    if !validate_type_id(type_id.as_slice(), index, tx) {
        return Err(CKBFSError::InvalidTypeId);
    }
    let zero = zeros(32);
    validate_witness_previous_position(tx, data.index as usize, zero.as_slice(), 0)?;
    let previous_checksum = read_le_u32(tx.witnesses[data.index as usize].as_slice(), 42);
    if previous_checksum != 0 {
        return Err(CKBFSError::InvalidInitialData);
    }
    validate_by_spawn_v3(tx, data.index, data.checksum, &checksum_code_hash, default_code_hash, prover)
}

fn zeros(n: usize) -> (r: Vec<u8>)
    ensures
        r@ == Seq::new(n as nat, |i: int| 0u8),
{
    let mut out: Vec<u8> = Vec::new();
    let mut i: usize = 0;
    while i < n
        invariant
            i <= n,
            out@ == Seq::new(i as nat, |k: int| 0u8),
        decreases n - i,
    {
        out.push(0u8);
        i = i + 1;
        assert(out@ =~= Seq::new(i as nat, |k: int| 0u8));
    }
    out
}

/// Whether the backlink list of `output` is that of `input` with exactly one entry
/// added, the one for the update before: `(tx_hash, input.index, input.checksum)`.
/// A record format without a backlink list must stay without one.
pub open spec fn backlinks_extended(input: RecordView, output: RecordView, tx_hash: Seq<u8>) -> bool {
    match (input.backlinks, output.backlinks) {
        (None, None) => true,
        (Some(before), Some(after)) => after == before.push(
            BackLinkView { tx_hash, index: input.index, checksum: input.checksum },
        ),
        _ => false,
    }
}

/// Checks that the backlink list grew by exactly the entry for the update before.
#[verifier::loop_isolation(false)]
pub fn validate_backlinks(input: &FileRecord, output: &FileRecord, previous_tx_hash: &[u8]) -> (r: bool)
    ensures
        r == backlinks_extended(input@, output@, previous_tx_hash@),
{
    match (&input.backlinks, &output.backlinks) {
        (None, None) => true,
        (Some(before), Some(after)) => {
            if after.len() == 0 || after.len() - 1 != before.len() {
                proof {
                    assert(input@.backlinks->Some_0.len() == before@.len());
                    assert(output@.backlinks->Some_0.len() == after@.len());
                }
                return false;
            }
            let ghost entry = BackLinkView {
                tx_hash: previous_tx_hash@,
                index: input.index,
                checksum: input.checksum,
            };
            let ghost bv = input@.backlinks->Some_0;
            let ghost av = output@.backlinks->Some_0;
            let mut i: usize = 0;
            while i < before.len()
                invariant
                    i <= before@.len(),
                    after@.len() == before@.len() + 1,
                    bv == before@.map_values(|b: crate::record::BackLink| b@),
                    av == after@.map_values(|b: crate::record::BackLink| b@),
                    forall|k: int| 0 <= k < i ==> av[k] == bv[k],
                decreases before@.len() - i,
            {
                if !bytes_eq(before[i].tx_hash.as_slice(), after[i].tx_hash.as_slice())
                    || before[i].index != after[i].index || before[i].checksum
                    != after[i].checksum {
                    proof {
                        assert(av[i as int] == after@[i as int]@);
                        assert(bv[i as int] == before@[i as int]@);
                        assert(bv.push(entry)[i as int] == bv[i as int]);
                        assert(av[i as int] != bv.push(entry)[i as int]);
                    }
                    return false;
                }
                i = i + 1;
            }
            let last = &after[before.len()];
            let ok = bytes_eq(last.tx_hash.as_slice(), previous_tx_hash) && last.index == input.index
                && last.checksum == input.checksum;
            proof {
                if ok {
                    assert(av =~= bv.push(entry));
                } else {
                    assert(av[bv.len() as int] != bv.push(entry)[bv.len() as int]);
                }
            }
            ok
        },
        _ => false,
    }
}

/// The outcome of the rules of an update from `input` to `output`: the fixed fields
/// and type arguments are unchanged, the backlinks grew by the entry for the update
/// before, the new head segment points back at that update, and the checksum is
/// proved: for a transfer (checksum unchanged) with no resume value, for an append
/// resumed from the old checksum.
pub open spec fn update_rules_outcome(
    tx: &TxView,
    input: RecordView,
    output: RecordView,
    input_type_args: Seq<u8>,
    output_type_args: Seq<u8>,
    previous_tx_hash: Seq<u8>,
    default_code_hash: Seq<u8>,
    prover: ChecksumProver,
) -> Result<VerdictView, CKBFSError> {
    if input.content_type != output.content_type || input.filename != output.filename
        || input_type_args != output_type_args {
        Err(CKBFSError::InvalidFieldUpdate)
    } else if !backlinks_extended(input, output, previous_tx_hash) {
        Err(CKBFSError::InvalidPreviousPosition)
    } else {
        match previous_position_outcome(
            witness_seqs(&tx.witnesses),
            output.index as int,
            previous_tx_hash,
            input.index,
        ) {
            Err(e) => Err(e),
            Ok(_) => match type_args_fields(output_type_args) {
                Err(e) => Err(e),
                Ok((_, code_hash)) => proof_outcome(
                    tx,
                    output.index,
                    output.checksum,
                    chosen_code_hash(code_hash, default_code_hash),
                    if input.checksum == output.checksum {
                        None
                    } else {
                        Some(input.checksum)
                    },
                    prover,
                ),
            },
        }
    }
}

/// Applies the rules of an update from `input` (created by `previous_tx_hash`) to
/// `output`.
pub fn validate_update(
    tx: &TxView,
    input: &FileRecord,
    output: &FileRecord,
    input_type_args: &[u8],
    output_type_args: &[u8],
    previous_tx_hash: &[u8],
    default_code_hash: &Vec<u8>,
    prover: ChecksumProver,
) -> (r: Result<Verdict, CKBFSError>)
    ensures
        verdict_matches(
            r,
            update_rules_outcome(
                tx,
                input@,
                output@,
                input_type_args@,
                output_type_args@,
                previous_tx_hash@,
                default_code_hash@,
                prover,
            ),
        ),
{
    if !bytes_eq(input.content_type.as_slice(), output.content_type.as_slice()) {
        return Err(CKBFSError::InvalidFieldUpdate);
    }
    if !bytes_eq(input.filename.as_slice(), output.filename.as_slice()) {
        return Err(CKBFSError::InvalidFieldUpdate);
    }
    if !bytes_eq(input_type_args, output_type_args) {
        return Err(CKBFSError::InvalidFieldUpdate);
    }
    if !validate_backlinks(input, output, previous_tx_hash) {
        return Err(CKBFSError::InvalidPreviousPosition);
    }
    validate_witness_previous_position(tx, output.index as usize, previous_tx_hash, input.index)?;
    let (_, checksum_code_hash) = unpack_type_args(output_type_args)?;
    if input.checksum == output.checksum {
        return process_transfer(tx, output.index, output.checksum, &checksum_code_hash, default_code_hash, prover);
    }
    process_append(
        tx,
        output.index,
        output.checksum,
        input.checksum,
        &checksum_code_hash,
        default_code_hash,
        prover,
    )
}

/// The outcome of validating an update from the record at input `input_index` to the
/// one at output `output_index`.
pub open spec fn update_outcome(
    tx: &TxView,
    input_index: int,
    output_index: int,
    default_code_hash: Seq<u8>,
    prover: ChecksumProver,
) -> Result<VerdictView, CKBFSError> {
    match (record_at(tx, Source::Input, input_index), record_at(tx, Source::Output, output_index)) {
        (Err(e), _) => Err(e),
        (_, Err(e)) => Err(e),
        (Ok(input), Ok(output)) => update_rules_outcome(
            tx,
            input,
            output,
            type_args_at(tx, Source::Input, input_index),
            type_args_at(tx, Source::Output, output_index),
            tx.inputs@[input_index].out_point_tx_hash@,
            default_code_hash,
            prover,
        ),
    }
}

/// Validates an update (append or transfer) from the record at input `input_index` to
/// the one at output `output_index`.
pub fn process_update(
    tx: &TxView,
    input_index: usize,
    output_index: usize,
    default_code_hash: &Vec<u8>,
    prover: ChecksumProver,
) -> (r: Result<Verdict, CKBFSError>)
    ensures
        verdict_matches(r, update_outcome(tx, input_index as int, output_index as int, default_code_hash@, prover)),
{
    let input_data = load_ckbfs_raw_data(tx, input_index, Source::Input)?;
    let output_data = load_ckbfs_raw_data(tx, output_index, Source::Output)?;
    let input_type_args = load_type_args(tx, input_index, Source::Input);
    let output_type_args = load_type_args(tx, output_index, Source::Output);
    let previous_tx_hash = tx.inputs[input_index].out_point_tx_hash.as_slice();
    validate_update(
        tx,
        &input_data,
        &output_data,
        input_type_args.as_slice(),
        output_type_args.as_slice(),
        previous_tx_hash,
        default_code_hash,
        prover,
    )
}

/// A transfer: the checksum stays; the chain is checked against it with no resume
/// value, so the head segment's previous checksum decides.
pub fn process_transfer(
    tx: &TxView,
    witness_index: u32,
    checksum: u32,
    checksum_code_hash: &Option<Vec<u8>>,
    default_code_hash: &Vec<u8>,
    prover: ChecksumProver,
) -> (r: Result<Verdict, CKBFSError>)
    ensures
        verdict_matches(
            r,
            proof_outcome(
                tx,
                witness_index,
                checksum,
                chosen_code_hash(opt_view(*checksum_code_hash), default_code_hash@),
                None,
                prover,
            ),
        ),
{
    validate_by_spawn_v3(tx, witness_index, checksum, checksum_code_hash, default_code_hash, prover)
}

/// An append: the new checksum must continue the old one over the chain's content.
pub fn process_append(
    tx: &TxView,
    witness_index: u32,
    checksum: u32,
    recover_checksum: u32,
    checksum_code_hash: &Option<Vec<u8>>,
    default_code_hash: &Vec<u8>,
    prover: ChecksumProver,
) -> (r: Result<Verdict, CKBFSError>)
    ensures
        verdict_matches(
            r,
            proof_outcome(
                tx,
                witness_index,
                checksum,
                chosen_code_hash(opt_view(*checksum_code_hash), default_code_hash@),
                Some(recover_checksum),
                prover,
            ),
        ),
{
    validate_by_spawn_v3_with_recover(
        tx,
        witness_index,
        checksum,
        recover_checksum,
        checksum_code_hash,
        default_code_hash,
        prover,
    )
}

/// Whether `cell` carries the file's type script, whose hash is `script_hash`.
pub open spec fn is_file_cell(cell: CellView, script_hash: Seq<u8>) -> bool {
    cell.type_hash is Some && cell.type_hash->Some_0@ == script_hash
}

/// How many of `cells` carry the file's type script.
pub open spec fn file_cell_count(cells: Seq<CellView>, script_hash: Seq<u8>) -> nat
    decreases cells.len(),
{
    if cells.len() == 0 {
        0
    } else {
        file_cell_count(cells.drop_last(), script_hash) + if is_file_cell(cells.last(), script_hash) {
            1nat
        } else {
            0nat
        }
    }
}

/// The position of the first of `cells` that carries the file's type script.
pub open spec fn first_file_cell(cells: Seq<CellView>, script_hash: Seq<u8>) -> Option<int>
    decreases cells.len(),
{
    if cells.len() == 0 {
        None
    } else {
        match first_file_cell(cells.drop_last(), script_hash) {
            Some(p) => Some(p),
            None => if is_file_cell(cells.last(), script_hash) {
                Some(cells.len() - 1)
            } else {
                None
            },
        }
    }
}

/// The outcome of validating the transaction for the file whose type script is the
/// running one: two outputs of the file are refused; an output without an input is a
/// creation, an input without an output a destruction (always refused), an input and
/// an output an update; with neither there is nothing to check.
pub open spec fn transaction_outcome(
    tx: &TxView,
    default_code_hash: Seq<u8>,
    prover: ChecksumProver,
) -> Result<VerdictView, CKBFSError> {
    let h = tx.script_hash@;
    let outputs = file_cell_count(tx.outputs@, h);
    if outputs > 1 {
        Err(CKBFSError::DuplicatedOutputs)
    } else {
        match first_file_cell(tx.inputs@, h) {
            None => if outputs == 1 {
                creation_outcome(tx, first_file_cell(tx.outputs@, h)->Some_0, default_code_hash, prover)
            } else {
                Ok(VerdictView::Valid)
            },
            Some(i) => if outputs == 0 {
                Err(CKBFSError::DeletionForbidden)
            } else {
                update_outcome(tx, i, first_file_cell(tx.outputs@, h)->Some_0, default_code_hash, prover)
            },
        }
    }
}

fn file_cell(cell: &CellView, script_hash: &[u8]) -> (r: bool)
    ensures
        r == is_file_cell(*cell, script_hash@),
{
    match &cell.type_hash {
        Some(type_hash) => bytes_eq(type_hash.as_slice(), script_hash),
        None => false,
    }
}

proof fn lemma_count_has_first(cells: Seq<CellView>, h: Seq<u8>)
    ensures
        file_cell_count(cells, h) > 0 <==> first_file_cell(cells, h) is Some,
        first_file_cell(cells, h) is Some ==> 0 <= first_file_cell(cells, h)->Some_0 < cells.len(),
    decreases cells.len(),
{
    if cells.len() > 0 {
        lemma_count_has_first(cells.drop_last(), h);
    }
}

/// Validates the transaction for the file whose type script is the running one, with
/// `default_code_hash` naming the checksum validator where a file names none.
#[verifier::loop_isolation(false)]
pub fn verify_transaction(tx: &TxView, default_code_hash: &Vec<u8>, prover: ChecksumProver) -> (r: Result<
    Verdict,
    CKBFSError,
>)
    ensures
        verdict_matches(r, transaction_outcome(tx, default_code_hash@, prover)),
{
    let ghost h = tx.script_hash@;
    let mut outputs_found: usize = 0;
    let mut first_output: Option<usize> = None;
    let mut i: usize = 0;
    while i < tx.outputs.len()
        invariant
            h == tx.script_hash@,
            i <= tx.outputs@.len(),
            outputs_found == file_cell_count(tx.outputs@.subrange(0, i as int), h),
            outputs_found <= i,
            match first_output {
                Some(p) => first_file_cell(tx.outputs@.subrange(0, i as int), h) == Some(p as int),
                None => first_file_cell(tx.outputs@.subrange(0, i as int), h) is None,
            },
        decreases tx.outputs@.len() - i,
    {
        assert(tx.outputs@.subrange(0, i + 1).drop_last() =~= tx.outputs@.subrange(0, i as int));
        if file_cell(&tx.outputs[i], tx.script_hash.as_slice()) {
            outputs_found = outputs_found + 1;
            if first_output.is_none() {
                first_output = Some(i);
            }
        }
        i = i + 1;
    }
    assert(tx.outputs@.subrange(0, tx.outputs@.len() as int) =~= tx.outputs@);
    let mut first_input: Option<usize> = None;
    let mut j: usize = 0;
    while first_input.is_none() && j < tx.inputs.len()
        invariant
            h == tx.script_hash@,
            j <= tx.inputs@.len(),
            match first_input {
                Some(p) => first_file_cell(tx.inputs@, h) == Some(p as int),
                None => first_file_cell(tx.inputs@.subrange(0, j as int), h) is None,
            },
        decreases tx.inputs@.len() - j,
    {
        assert(tx.inputs@.subrange(0, j + 1).drop_last() =~= tx.inputs@.subrange(0, j as int));
        if file_cell(&tx.inputs[j], tx.script_hash.as_slice()) {
            proof {
                assert(tx.inputs@.subrange(0, j + 1).last() == tx.inputs@[j as int]);
                assert(first_file_cell(tx.inputs@.subrange(0, j + 1), h) == Some(j as int));
                lemma_first_in_prefix(tx.inputs@, h, j as int + 1);
            }
            first_input = Some(j);
        }
        j = j + 1;
    }
    proof {
        if first_input is None {
            assert(tx.inputs@.subrange(0, tx.inputs@.len() as int) =~= tx.inputs@);
        }
        lemma_count_has_first(tx.outputs@, h);
    }
    if outputs_found > 1 {
        return Err(CKBFSError::DuplicatedOutputs);
    }
    match (first_input, first_output) {
        (None, Some(output_index)) => process_creation(tx, output_index, default_code_hash, prover),
        (Some(_), None) => Err(CKBFSError::DeletionForbidden),
        (Some(input_index), Some(output_index)) => process_update(
            tx,
            input_index,
            output_index,
            default_code_hash,
            prover,
        ),
        (None, None) => Ok(Verdict::Valid),
    }
}

/// Where the first file cell lies within the first `n` cells, it is the first of all.
proof fn lemma_first_in_prefix(cells: Seq<CellView>, h: Seq<u8>, n: int)
    requires
        0 <= n <= cells.len(),
        first_file_cell(cells.subrange(0, n), h) is Some,
    ensures
        first_file_cell(cells, h) == first_file_cell(cells.subrange(0, n), h),
    decreases cells.len() - n,
{
    if n < cells.len() {
        let m = n + 1;
        assert(cells.subrange(0, m).drop_last() =~= cells.subrange(0, n));
        lemma_first_in_prefix(cells, h, m);
    } else {
        assert(cells.subrange(0, n) =~= cells);
    }
}

/// A transaction that consumes a file record and produces no output of the file is
/// refused as a destruction, whatever else it holds.
pub proof fn lemma_destruction_forbidden(tx: &TxView, default_code_hash: Seq<u8>, prover: ChecksumProver)
    requires
        first_file_cell(tx.inputs@, tx.script_hash@) is Some,
        file_cell_count(tx.outputs@, tx.script_hash@) == 0,
    ensures
        transaction_outcome(tx, default_code_hash, prover) == Err::<VerdictView, CKBFSError>(
            CKBFSError::DeletionForbidden,
        ),
{
}

/// A creation with a well-formed type id whose head segment points back at anything
/// but the all-zero position is refused as a break of the chain.
pub proof fn lemma_creation_rejects_nonzero_backlink(
    tx: &TxView,
    default_code_hash: Seq<u8>,
    prover: ChecksumProver,
)
    requires
        first_file_cell(tx.inputs@, tx.script_hash@) is None,
        file_cell_count(tx.outputs@, tx.script_hash@) == 1,
        record_at(tx, Source::Output, first_file_cell(tx.outputs@, tx.script_hash@)->Some_0) is Ok,
        ({
            let rec = record_at(
                tx,
                Source::Output,
                first_file_cell(tx.outputs@, tx.script_hash@)->Some_0,
            )->Ok_0;
            let ws = witness_seqs(&tx.witnesses);
            let p = first_file_cell(tx.outputs@, tx.script_hash@)->Some_0;
            &&& type_args_fields(type_args_at(tx, Source::Output, p)) is Ok
            &&& type_id_valid(tx, type_args_fields(type_args_at(tx, Source::Output, p))->Ok_0.0, p)
            &&& rec.index < ws.len()
            &&& ws[rec.index as int].len() >= 50
            &&& ws[rec.index as int].subrange(6, 42) != Seq::new(36, |i: int| 0u8)
        }),
    ensures
        transaction_outcome(tx, default_code_hash, prover) == Err::<VerdictView, CKBFSError>(
            CKBFSError::InvalidPreviousPosition,
        ),
{
    let rec = record_at(tx, Source::Output, first_file_cell(tx.outputs@, tx.script_hash@)->Some_0)->Ok_0;
    let ws = witness_seqs(&tx.witnesses);
    let w = ws[rec.index as int];
    if w.subrange(6, 38) == zero_hash() && le_u32_at(w, 38) == 0 {
        let tail = w.subrange(38, 42);
        assert(tail[0] == 0 && tail[1] == 0 && tail[2] == 0 && tail[3] == 0);
        assert(w.subrange(6, 42) =~= Seq::new(36, |i: int| 0u8)) by {
            assert forall|k: int| 0 <= k < 36 implies w.subrange(6, 42)[k] == 0u8 by {
                if k < 32 {
                    assert(w.subrange(6, 38)[k] == w[6 + k]);
                } else {
                    assert(tail[k - 32] == w[6 + k]);
                }
            }
        }
    }
}

/// An update that changes the content type or the file name is refused, whatever its
/// checksum.
pub proof fn lemma_immutable_fields(tx: &TxView, default_code_hash: Seq<u8>, prover: ChecksumProver)
    requires
        first_file_cell(tx.inputs@, tx.script_hash@) is Some,
        file_cell_count(tx.outputs@, tx.script_hash@) == 1,
        record_at(tx, Source::Input, first_file_cell(tx.inputs@, tx.script_hash@)->Some_0) is Ok,
        record_at(tx, Source::Output, first_file_cell(tx.outputs@, tx.script_hash@)->Some_0) is Ok,
        ({
            let input = record_at(
                tx,
                Source::Input,
                first_file_cell(tx.inputs@, tx.script_hash@)->Some_0,
            )->Ok_0;
            let output = record_at(
                tx,
                Source::Output,
                first_file_cell(tx.outputs@, tx.script_hash@)->Some_0,
            )->Ok_0;
            input.content_type != output.content_type || input.filename != output.filename
        }),
    ensures
        transaction_outcome(tx, default_code_hash, prover) == Err::<VerdictView, CKBFSError>(
            CKBFSError::InvalidFieldUpdate,
        ),
{
}

/// With the fixed fields unchanged, an update whose backlink list does not grow by
/// exactly one entry is refused as a break of the chain; one that grows by exactly the
/// entry for the update before passes the backlink rule.
pub proof fn lemma_append_one_backlink(
    tx: &TxView,
    input: RecordView,
    output: RecordView,
    input_type_args: Seq<u8>,
    output_type_args: Seq<u8>,
    previous_tx_hash: Seq<u8>,
    default_code_hash: Seq<u8>,
    prover: ChecksumProver,
)
    requires
        input.backlinks is Some,
        output.backlinks is Some,
        input.content_type == output.content_type,
        input.filename == output.filename,
        input_type_args == output_type_args,
    ensures
        output.backlinks->Some_0.len() != input.backlinks->Some_0.len() + 1 ==> update_rules_outcome(
            tx,
            input,
            output,
            input_type_args,
            output_type_args,
            previous_tx_hash,
            default_code_hash,
            prover,
        ) == Err::<VerdictView, CKBFSError>(CKBFSError::InvalidPreviousPosition),
        output.backlinks->Some_0 == input.backlinks->Some_0.push(
            BackLinkView { tx_hash: previous_tx_hash, index: input.index, checksum: input.checksum },
        ) ==> backlinks_extended(input, output, previous_tx_hash),
{
}

proof fn lemma_le_u32_round_trip(x: u32)
    ensures
        crate::hex::le_value(le_bytes_u32(x)) == x,
{
    let b = le_bytes_u32(x);
    reveal_with_fuel(crate::hex::pow256, 5);
    reveal_with_fuel(crate::hex::le_value, 5);
    assert(b.drop_first().drop_first().drop_first().drop_first() =~= Seq::<u8>::empty());
    let xi = x as int;
    let q1 = xi / 256;
    let q2 = q1 / 256;
    let q3 = q2 / 256;
    vstd::arithmetic::div_mod::lemma_div_denominator(xi, 256, 256);
    vstd::arithmetic::div_mod::lemma_div_denominator(xi, 65536, 256);
    assert(xi / 65536 == q2);
    assert(xi / 16777216 == q3);
    assert(q3 < 256);
    assert(b[0] == xi % 256);
    assert(b[1] == q1 % 256);
    assert(b[2] == q2 % 256);
    assert(b[3] == q3);
    assert(xi == 256 * q1 + xi % 256);
    assert(q1 == 256 * q2 + q1 % 256);
    assert(q2 == 256 * q3 + q2 % 256);
}

/// Run on the arguments of a proof request, the checksum validator program of this
/// library reaches the verdict of the in-process check: status 0 exactly where the
/// chain at `witness_index` has the checksum `checksum`.
pub proof fn lemma_spawn_args_agree(tx: &TxView, witness_index: u32, checksum: u32, recover: Option<u32>)
    ensures
        crate::hasher::entry_status(spawn_args(witness_index, checksum, recover), tx)
            == chain_status(witness_seqs(&tx.witnesses), witness_index, checksum, recover),
{
    let args = spawn_args(witness_index, checksum, recover);
    crate::hex::lemma_hex_arg_number(seq![3u8], 1);
    reveal_with_fuel(crate::hex::le_value, 2);
    assert(seq![3u8].drop_first() =~= Seq::<u8>::empty());
    crate::hex::lemma_hex_arg_number(le_bytes_u32(witness_index), 4);
    lemma_le_u32_round_trip(witness_index);
    crate::hex::lemma_hex_arg_number(le_bytes_u32(checksum), 4);
    lemma_le_u32_round_trip(checksum);
    match recover {
        Some(c) => {
            crate::hex::lemma_hex_arg_number(le_bytes_u32(c), 4);
            lemma_le_u32_round_trip(c);
            assert(args[3] == hex_arg(le_bytes_u32(c)));
        },
        None => {},
    }
    assert(args[0] == hex_arg(seq![3u8]));
    assert(args[1] == hex_arg(le_bytes_u32(witness_index)));
    assert(args[2] == hex_arg(le_bytes_u32(checksum)));
}

} // verus!
