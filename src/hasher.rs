//! The checksum validator: recomputes the checksum of content that its arguments
//! point at and compares it with the expected value.
use vstd::prelude::*;

use crate::checksum::{adler32, checksum, checksum_resumed, le_u32, read_le_u32, resumed_checksum};
use crate::hasher_error::{CKBFSError, hasher_error_code};
use crate::hex::{arg_bytes, arg_number, arg_to_u32, arg_to_u64, arg_to_u8, arg_to_vec_u8};
use crate::tx::{TxView, cell_at, is_source_selector, load_cell_data, map_u64_to_source, source_of};
use crate::witness::{
    CKBFS_WITNESSES_OFFSET,
    chain_content,
    load_segment,
    load_witnesses_for_ckbfs,
    walk_chain,
    witness_after,
    witness_seqs,
    CKBFS_V3_WITNESSES_INDEX,
};

verus! {

/// The exit status of a successful check.
pub const SUCCESS: i8 = 0;

/// The checksum of `data`, resumed from `recover` where one is given.
pub open spec fn computed_checksum(data: Seq<u8>, recover: Option<u32>) -> u32 {
    match recover {
        Some(prior) => resumed_checksum(prior, data),
        None => adler32(data),
    }
}

/// The status of comparing the computed checksum of `data` with `expected`.
pub open spec fn compare_status(expected: u32, data: Seq<u8>, recover: Option<u32>) -> i8 {
    if computed_checksum(data, recover) == expected {
        0
    } else {
        hasher_error_code(CKBFSError::ValidateFailure) as i8
    }
}

/// Compares the checksum of `data` (resumed from `recover` where given) with
/// `expected`: 0 where they agree, the status of `ValidateFailure` otherwise.
pub fn validate_checksum(expected_checksum: u32, data: &[u8], recover_checksum: Option<u32>) -> (r: i8)
    ensures
        r == compare_status(expected_checksum, data@, recover_checksum),
{
    let checksum_ = match recover_checksum {
        Some(recover) => checksum_resumed(recover, data),
        None => checksum(data),
    };
    if checksum_ != expected_checksum {
        return CKBFSError::ValidateFailure.code();
    }
    SUCCESS
}

/// The arguments as byte sequences.
pub open spec fn arg_seqs(args: &Vec<Vec<u8>>) -> Seq<Seq<u8>> {
    args@.map_values(|a: Vec<u8>| a@)
}

/// The status of a failure.
pub open spec fn status(e: CKBFSError) -> i8 {
    hasher_error_code(e) as i8
}

/// The optional resume argument at position `at`: absent, a checksum, or undecodable.
pub open spec fn optional_checksum_arg(args: Seq<Seq<u8>>, at: int) -> Result<Option<u32>, CKBFSError> {
    if args.len() > at {
        match arg_number(args[at], 4) {
            Some(v) => Ok(Some(v as u32)),
            None => Err(CKBFSError::Encoding),
        }
    } else {
        Ok(None)
    }
}

fn optional_checksum(args: &Vec<Vec<u8>>, at: usize) -> (r: Result<Option<u32>, CKBFSError>)
    ensures
        r == optional_checksum_arg(arg_seqs(args), at as int),
{
    if args.len() > at {
        let v = arg_to_u32(args[at].as_slice())?;
        Ok(Some(v))
    } else {
        Ok(None)
    }
}

/// The outcome of the plain mode: `[mode, content, expected, resume?]`.
pub open spec fn plain_status(args: Seq<Seq<u8>>) -> i8 {
    if args.len() < 3 {
        status(CKBFSError::LengthNotEnough)
    } else {
        match (arg_number(args[2], 4), optional_checksum_arg(args, 3)) {
            (Some(expected), Ok(recover)) => compare_status(expected as u32, args[1], recover),
            _ => status(CKBFSError::Encoding),
        }
    }
}

/// Checks the checksum of content given as an argument.
pub fn process_plain_validate(args: &Vec<Vec<u8>>) -> (r: i8)
    ensures
        r == plain_status(arg_seqs(args)),
{
    if args.len() < 3 {
        return CKBFSError::LengthNotEnough.code();
    }
    let expected_checksum = match arg_to_u32(args[2].as_slice()) {
        Ok(v) => v,
        Err(e) => return e.code(),
    };
    let recover_checksum = match optional_checksum(args, 3) {
        Ok(v) => v,
        Err(e) => return e.code(),
    };
    validate_checksum(expected_checksum, args[1].as_slice(), recover_checksum)
}

/// The `u32` items of a fixed-width list: a little-endian count, then that many
/// little-endian items.
pub open spec fn u32_list(bytes: Seq<u8>) -> Option<Seq<u32>> {
    if bytes.len() < 4 || bytes.len() != 4 + 4 * le_u32(bytes.subrange(0, 4)) {
        None
    } else {
        Some(
            Seq::new(
                le_u32(bytes.subrange(0, 4)) as nat,
                |i: int| le_u32(bytes.subrange(4 + 4 * i, 8 + 4 * i)) as u32,
            ),
        )
    }
}

/// Decodes a fixed-width list of `u32`.
pub fn unpack_u32_list(bytes: &[u8]) -> (r: Option<Vec<u32>>)
    ensures
        match (r, u32_list(bytes@)) {
            (Some(v), Some(s)) => v@ == s,
            (None, None) => true,
            _ => false,
        },
{
    if bytes.len() < 4 {
        return None;
    }
    let count = read_le_u32(bytes, 0);
    if (bytes.len() - 4) / 4 != count as usize || (bytes.len() - 4) % 4 != 0 {
        return None;
    }
    let n = bytes.len();
    let mut items: Vec<u32> = Vec::new();
    let mut i: usize = 0;
    while i < count as usize
        invariant
            i <= count,
            n == bytes@.len(),
            bytes@.len() == 4 + 4 * count,
            count == le_u32(bytes@.subrange(0, 4)),
            items@.len() == i,
            forall|k: int|
                0 <= k < i ==> #[trigger] items@[k] == le_u32(bytes@.subrange(4 + 4 * k, 8 + 4 * k)) as u32,
        decreases count - i,
    {
        let item = read_le_u32(bytes, 4 + 4 * i);
        items.push(item);
        i = i + 1;
    }
    assert(items@ =~= u32_list(bytes@)->Some_0);
    Some(items)
}

/// The content parts that a list of witness indices points at.
pub open spec fn listed_parts(ws: Seq<Seq<u8>>, indices: Seq<u32>) -> Result<Seq<Seq<u8>>, CKBFSError>
    decreases indices.len(),
{
    if indices.len() == 0 {
        Ok(Seq::empty())
    } else {
        match (
            listed_parts(ws, indices.drop_last()),
            witness_after(ws, indices.last() as int, CKBFS_WITNESSES_OFFSET as int),
        ) {
            (Ok(parts), Ok(part)) => Ok(parts.push(part)),
            (Err(e), _) => Err(e),
            (_, Err(e)) => Err(e),
        }
    }
}

/// The running checksum after folding in each part in order, starting from `start`
/// (none: the first part is checksummed fresh; with no part either, there is none).
pub open spec fn folded_checksum(parts: Seq<Seq<u8>>, start: Option<u32>) -> Option<u32>
    decreases parts.len(),
{
    if parts.len() == 0 {
        start
    } else {
        Some(computed_checksum(parts.last(), folded_checksum(parts.drop_last(), start)))
    }
}

/// The outcome of the index-list mode: `[mode, list, expected, resume?]`.
pub open spec fn index_list_status(args: Seq<Seq<u8>>, ws: Seq<Seq<u8>>) -> i8 {
    if args.len() < 3 {
        status(CKBFSError::LengthNotEnough)
    } else {
        match arg_bytes(args[1]) {
            None => status(CKBFSError::Encoding),
            Some(list) => match u32_list(list) {
                None => status(CKBFSError::Encoding),
                Some(indices) => match (arg_number(args[2], 4), optional_checksum_arg(args, 3)) {
                    (Some(expected), Ok(recover)) => match listed_parts(ws, indices) {
                        Err(e) => status(e),
                        Ok(parts) => {
                            let got = match folded_checksum(parts, recover) {
                                Some(c) => c,
                                None => adler32(Seq::empty()),
                            };
                            if got == expected as u32 {
                                0
                            } else {
                                status(CKBFSError::ValidateFailure)
                            }
                        },
                    },
                    _ => status(CKBFSError::Encoding),
                },
            },
        }
    }
}

/// Checks the checksum of the content of the witnesses that a list of indices names,
/// in the list's order.
#[verifier::loop_isolation(false)]
pub fn process_ckbfs_validate(args: &Vec<Vec<u8>>, witnesses: &Vec<Vec<u8>>) -> (r: i8)
    ensures
        r == index_list_status(arg_seqs(args), witness_seqs(witnesses)),
{
    if args.len() < 3 {
        return CKBFSError::LengthNotEnough.code();
    }
    let list = match arg_to_vec_u8(args[1].as_slice()) {
        Ok(v) => v,
        Err(e) => return e.code(),
    };
    let indices = match unpack_u32_list(list.as_slice()) {
        Some(v) => v,
        None => return CKBFSError::Encoding.code(),
    };
    let expected_checksum = match arg_to_u32(args[2].as_slice()) {
        Ok(v) => v,
        Err(e) => return e.code(),
    };
    let recover_checksum = match optional_checksum(args, 3) {
        Ok(v) => v,
        Err(e) => return e.code(),
    };
    let ghost ws = witness_seqs(witnesses);
    let mut final_checksum = recover_checksum;
    let ghost mut parts: Seq<Seq<u8>> = Seq::empty();
    let mut i: usize = 0;
    while i < indices.len()
        invariant
            ws == witness_seqs(witnesses),
            i <= indices@.len(),
            listed_parts(ws, indices@.subrange(0, i as int)) == Ok::<Seq<Seq<u8>>, CKBFSError>(parts),
            final_checksum == folded_checksum(parts, recover_checksum),
        decreases indices@.len() - i,
    {
        let ghost prefix = indices@.subrange(0, i as int);
        let part = match load_witnesses_for_ckbfs(indices[i] as usize, witnesses) {
            Ok(p) => p,
            Err(e) => {
                proof {
                    lemma_listed_parts_fail(ws, indices@, i as int);
                }
                return e.code();
            },
        };
        final_checksum = match final_checksum {
            None => Some(checksum(part.as_slice())),
            Some(recover) => Some(checksum_resumed(recover, part.as_slice())),
        };
        proof {
            assert(indices@.subrange(0, i + 1).drop_last() =~= prefix);
            let before = parts;
            parts = parts.push(part@);
            assert(parts.drop_last() =~= before);
        }
        i = i + 1;
    }
    assert(indices@.subrange(0, indices@.len() as int) =~= indices@);
    let got = match final_checksum {
        Some(c) => c,
        None => {
            let nothing: Vec<u8> = Vec::new();
            checksum(nothing.as_slice())
        },
    };
    if got != expected_checksum {
        return CKBFSError::ValidateFailure.code();
    }
    SUCCESS
}

/// Once loading the part at position `i` fails, the whole list fails with that error.
proof fn lemma_listed_parts_fail(ws: Seq<Seq<u8>>, indices: Seq<u32>, i: int)
    requires
        0 <= i < indices.len(),
        listed_parts(ws, indices.subrange(0, i)) is Ok,
        witness_after(ws, indices[i] as int, CKBFS_WITNESSES_OFFSET as int) is Err,
    ensures
        listed_parts(ws, indices) == Err::<Seq<Seq<u8>>, CKBFSError>(
            witness_after(ws, indices[i] as int, CKBFS_WITNESSES_OFFSET as int)->Err_0,
        ),
    decreases indices.len(),
{
    let e = witness_after(ws, indices[i] as int, CKBFS_WITNESSES_OFFSET as int)->Err_0;
    if i == indices.len() - 1 {
        assert(indices.drop_last() =~= indices.subrange(0, i));
    } else {
        assert(indices.drop_last().subrange(0, i) =~= indices.subrange(0, i));
        lemma_listed_parts_fail(ws, indices.drop_last(), i);
    }
}

/// The outcome of the manual mode: `[mode, source, index, offset, expected, resume?]`;
/// the content is the record's data from `offset` on.
pub open spec fn manual_status(args: Seq<Seq<u8>>, tx: &TxView) -> i8 {
    if args.len() < 5 {
        status(CKBFSError::LengthNotEnough)
    } else {
        match (
            arg_number(args[1], 8),
            arg_number(args[2], 1),
            arg_number(args[3], 4),
            arg_number(args[4], 4),
            optional_checksum_arg(args, 5),
        ) {
            (Some(sel), Some(index), Some(offset), Some(expected), Ok(recover)) => match source_of(
                sel as u64,
            ) {
                None => status(CKBFSError::Unknown),
                Some(source) => match cell_at(tx, source, index) {
                    None => status(CKBFSError::IndexOutOfBound),
                    Some(cell) => if offset > cell.data@.len() {
                        status(CKBFSError::LengthNotEnough)
                    } else {
                        compare_status(
                            expected as u32,
                            cell.data@.subrange(offset, cell.data@.len() as int),
                            recover,
                        )
                    },
                },
            },
            _ => status(CKBFSError::Encoding),
        }
    }
}

/// Checks the checksum of a record's data from a byte offset on.
pub fn process_manual_validate(args: &Vec<Vec<u8>>, tx: &TxView) -> (r: i8)
    ensures
        r == manual_status(arg_seqs(args), tx),
{
    if args.len() < 5 {
        return CKBFSError::LengthNotEnough.code();
    }
    let selector = match arg_to_u64(args[1].as_slice()) {
        Ok(v) => v,
        Err(e) => return e.code(),
    };
    let index = match arg_to_u8(args[2].as_slice()) {
        Ok(v) => v,
        Err(e) => return e.code(),
    };
    let offset = match arg_to_u32(args[3].as_slice()) {
        Ok(v) => v,
        Err(e) => return e.code(),
    };
    let expected_checksum = match arg_to_u32(args[4].as_slice()) {
        Ok(v) => v,
        Err(e) => return e.code(),
    };
    let recover_checksum = match optional_checksum(args, 5) {
        Ok(v) => v,
        Err(e) => return e.code(),
    };
    if !is_source_selector(selector) {
        return CKBFSError::Unknown.code();
    }
    let source = map_u64_to_source(selector);
    let mut data = match load_cell_data(tx, source, index as usize) {
        Ok(d) => d,
        Err(e) => return e.code(),
    };
    if offset as usize > data.len() {
        return CKBFSError::LengthNotEnough.code();
    }
    let content = data.split_off(offset as usize);
    validate_checksum(expected_checksum, content.as_slice(), recover_checksum)
}

/// The checksum that a chain's content continues: the one given as an argument, else
/// the head's previous checksum where it is not zero (zero marks a fresh file).
pub open spec fn chain_resume(given: Option<u32>, head_recover: Option<u32>) -> Option<u32> {
    match given {
        Some(c) => Some(c),
        None => match head_recover {
            Some(c) => if c == 0 {
                None
            } else {
                Some(c)
            },
            None => None,
        },
    }
}

/// The outcome of checking the chain that starts at the head segment `head` against
/// `expected`, with the resume value `given` where the caller supplies one.
pub open spec fn chain_status(ws: Seq<Seq<u8>>, head: u32, expected: u32, given: Option<u32>) -> i8 {
    match chain_content(ws, head) {
        Err(_) => status(CKBFSError::ValidateFailure),
        Ok(content) => compare_status(
            expected,
            content,
            chain_resume(
                given,
                load_segment(ws, CKBFS_V3_WITNESSES_INDEX::HeadWitness(head))->Ok_0.recover_checksum,
            ),
        ),
    }
}

/// Checks the checksum of the content of the witness chain that starts at `head_index`.
pub fn validate_chain(witnesses: &Vec<Vec<u8>>, head_index: u32, expected_checksum: u32, resume: Option<u32>) -> (r: i8)
    ensures
        r == chain_status(witness_seqs(witnesses), head_index, expected_checksum, resume),
{
    let (content, head) = match walk_chain(head_index, witnesses) {
        Ok(v) => v,
        Err(_) => return CKBFSError::ValidateFailure.code(),
    };
    let recover = match resume {
        Some(c) => Some(c),
        None => match head.recover_checksum {
            Some(c) => if c == 0 {
                None
            } else {
                Some(c)
            },
            None => None,
        },
    };
    validate_checksum(expected_checksum, content.as_slice(), recover)
}

/// The outcome of the witness-chain mode: `[mode, head index, expected, resume?]`.
pub open spec fn chain_mode_status(args: Seq<Seq<u8>>, ws: Seq<Seq<u8>>) -> i8 {
    if args.len() < 3 {
        status(CKBFSError::LengthNotEnough)
    } else {
        match (arg_number(args[1], 4), arg_number(args[2], 4), optional_checksum_arg(args, 3)) {
            (Some(head), Some(expected), Ok(given)) => chain_status(ws, head as u32, expected as u32, given),
            _ => status(CKBFSError::Encoding),
        }
    }
}

/// Checks the checksum of the content of a witness chain named by its head.
pub fn process_ckbfs_validate_v3(args: &Vec<Vec<u8>>, witnesses: &Vec<Vec<u8>>) -> (r: i8)
    ensures
        r == chain_mode_status(arg_seqs(args), witness_seqs(witnesses)),
{
    if args.len() < 3 {
        return CKBFSError::LengthNotEnough.code();
    }
    let first_witness_index = match arg_to_u32(args[1].as_slice()) {
        Ok(v) => v,
        Err(e) => return e.code(),
    };
    let expected_checksum = match arg_to_u32(args[2].as_slice()) {
        Ok(v) => v,
        Err(e) => return e.code(),
    };
    let resume = match optional_checksum(args, 3) {
        Ok(v) => v,
        Err(e) => return e.code(),
    };
    validate_chain(witnesses, first_witness_index, expected_checksum, resume)
}

/// Mode selector of the plain mode.
pub const MODE_PLAIN: u8 = 0;

/// Mode selector of the index-list mode.
pub const MODE_INDEX_LIST: u8 = 1;

/// Mode selector of the manual mode.
pub const MODE_MANUAL: u8 = 2;

/// Mode selector of the witness-chain mode.
pub const MODE_CHAIN: u8 = 3;

/// The outcome of the checksum validator run with `args`.
pub open spec fn entry_status(args: Seq<Seq<u8>>, tx: &TxView) -> i8 {
    if args.len() < 2 {
        0
    } else {
        match arg_number(args[0], 1) {
            None => status(CKBFSError::Encoding),
            Some(mode) => if mode == 0 {
                plain_status(args)
            } else if mode == 1 {
                index_list_status(args, witness_seqs(&tx.witnesses))
            } else if mode == 2 {
                manual_status(args, tx)
            } else if mode == 3 {
                chain_mode_status(args, witness_seqs(&tx.witnesses))
            } else {
                status(CKBFSError::Unknown)
            },
        }
    }
}

/// Runs the checksum validator: the first argument selects the mode; with fewer than
/// two arguments there is nothing to check.
pub fn program_entry(args: &Vec<Vec<u8>>, tx: &TxView) -> (r: i8)
    ensures
        r == entry_status(arg_seqs(args), tx),
{
    if args.len() < 2 {
        return SUCCESS;
    }
    let mode_arg = match arg_to_u8(args[0].as_slice()) {
        Ok(v) => v,
        Err(e) => return e.code(),
    };
    match mode_arg {
        MODE_PLAIN => process_plain_validate(args),
        MODE_INDEX_LIST => process_ckbfs_validate(args, &tx.witnesses),
        MODE_MANUAL => process_manual_validate(args, tx),
        MODE_CHAIN => process_ckbfs_validate_v3(args, &tx.witnesses),
        _ => CKBFSError::Unknown.code(),
    }
}

/// On a head segment at `h` linking to a middle segment at `m` linking to a tail
/// segment at `t`, the chain check depends only on the three contents in that order
/// and the head's previous checksum, wherever the segments stand among the witnesses.
pub proof fn lemma_chain_status_three_segments(
    ws: Seq<Seq<u8>>,
    h: u32,
    m: u32,
    t: u32,
    expected: u32,
    given: Option<u32>,
)
    requires
        load_segment(ws, CKBFS_V3_WITNESSES_INDEX::HeadWitness(h)) is Ok,
        load_segment(ws, CKBFS_V3_WITNESSES_INDEX::HeadWitness(h))->Ok_0.next_index == Some(m),
        load_segment(ws, CKBFS_V3_WITNESSES_INDEX::MiddleWitness(m)) is Ok,
        load_segment(ws, CKBFS_V3_WITNESSES_INDEX::MiddleWitness(m))->Ok_0.next_index == Some(t),
        load_segment(ws, CKBFS_V3_WITNESSES_INDEX::TailWitness(t)) is Ok,
        load_segment(ws, CKBFS_V3_WITNESSES_INDEX::TailWitness(t))->Ok_0.next_index is None,
    ensures
        chain_status(ws, h, expected, given) == compare_status(
            expected,
            load_segment(ws, CKBFS_V3_WITNESSES_INDEX::HeadWitness(h))->Ok_0.content
                + load_segment(ws, CKBFS_V3_WITNESSES_INDEX::MiddleWitness(m))->Ok_0.content
                + load_segment(ws, CKBFS_V3_WITNESSES_INDEX::TailWitness(t))->Ok_0.content,
            chain_resume(
                given,
                load_segment(ws, CKBFS_V3_WITNESSES_INDEX::HeadWitness(h))->Ok_0.recover_checksum,
            ),
        ),
{
    crate::witness::lemma_three_segment_chain(ws, h, m, t);
}

} // verus!
