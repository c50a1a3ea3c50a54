//! What a validator reads of the transaction under check, as plain values.
use vstd::prelude::*;

use crate::hasher_error::CKBFSError;

verus! {

/// Where a record is looked up.
#[derive(Debug, Clone, Copy, PartialEq, Eq, Structural)]
pub enum Source {
    Input,
    Output,
    CellDep,
    HeaderDep,
    GroupInput,
    GroupOutput,
}

/// The source that a numeric selector names, if any.
pub open spec fn source_of(value: u64) -> Option<Source> {
    if value == 1 {
        Some(Source::Input)
    } else if value == 2 {
        Some(Source::Output)
    } else if value == 3 {
        Some(Source::CellDep)
    } else if value == 4 {
        Some(Source::HeaderDep)
    } else if value == 0x0100000000000001 {
        Some(Source::GroupInput)
    } else if value == 0x0100000000000002 {
        Some(Source::GroupOutput)
    } else {
        None
    }
}

/// Whether `value` is one of the six source selectors.
pub fn is_source_selector(value: u64) -> (r: bool)
    ensures
        r == source_of(value) is Some,
{
    value == 1 || value == 2 || value == 3 || value == 4 || value == 0x0100000000000001 || value
        == 0x0100000000000002
}

/// The source that the selector `value` names; only the six selectors name one.
pub fn map_u64_to_source(value: u64) -> (r: Source)
    requires
        source_of(value) is Some,
    ensures
        source_of(value) == Some(r),
{
    match value {
        1 => Source::Input,
        2 => Source::Output,
        3 => Source::CellDep,
        4 => Source::HeaderDep,
        0x0100000000000001 => Source::GroupInput,
        _ => Source::GroupOutput,
    }
}

/// A record of the transaction: its data and the hash of that data, the hash and
/// arguments of its type script (if it has one) and, for an input, the hash of the
/// transaction that created it.
pub struct CellView {
    pub data: Vec<u8>,
    pub data_hash: Vec<u8>,
    pub type_hash: Option<Vec<u8>>,
    pub type_args: Vec<u8>,
    pub out_point_tx_hash: Vec<u8>,
}

/// The transaction under check, as the host hands it over.
pub struct TxView {
    pub inputs: Vec<CellView>,
    pub outputs: Vec<CellView>,
    pub cell_deps: Vec<CellView>,
    pub witnesses: Vec<Vec<u8>>,
    /// Positions among `inputs` of the records of the running script's group.
    pub group_inputs: Vec<usize>,
    /// Positions among `outputs` of the records of the running script's group.
    pub group_outputs: Vec<usize>,
    /// The hash of the running script.
    pub script_hash: Vec<u8>,
    /// The serialized first input of the transaction, if there is one.
    pub first_input: Option<Vec<u8>>,
}

/// The records that a source reaches directly.
pub open spec fn cells_of(tx: &TxView, source: Source) -> Seq<CellView> {
    match source {
        Source::Input | Source::GroupInput => tx.inputs@,
        Source::Output | Source::GroupOutput => tx.outputs@,
        Source::CellDep => tx.cell_deps@,
        Source::HeaderDep => Seq::empty(),
    }
}

/// The position among `cells_of(tx, source)` that `index` names in `source`.
pub open spec fn position_of(tx: &TxView, source: Source, index: int) -> Option<int> {
    match source {
        Source::GroupInput => if 0 <= index < tx.group_inputs@.len() {
            Some(tx.group_inputs@[index] as int)
        } else {
            None
        },
        Source::GroupOutput => if 0 <= index < tx.group_outputs@.len() {
            Some(tx.group_outputs@[index] as int)
        } else {
            None
        },
        _ => Some(index),
    }
}

/// The record that `index` names in `source`, if there is one.
pub open spec fn cell_at(tx: &TxView, source: Source, index: int) -> Option<CellView> {
    match position_of(tx, source, index) {
        Some(p) => if 0 <= p < cells_of(tx, source).len() {
            Some(cells_of(tx, source)[p])
        } else {
            None
        },
        None => None,
    }
}

/// Looks up the position of the record that `index` names in `source`.
pub fn locate_cell(tx: &TxView, source: Source, index: usize) -> (r: Option<usize>)
    ensures
        match r {
            Some(p) => cell_at(tx, source, index as int) is Some && p < cells_of(tx, source).len()
                && cell_at(tx, source, index as int)->Some_0 == cells_of(tx, source)[p as int],
            None => cell_at(tx, source, index as int) is None,
        },
{
    let position = match source {
        Source::GroupInput => {
            if index >= tx.group_inputs.len() {
                return None;
            }
            tx.group_inputs[index]
        },
        Source::GroupOutput => {
            if index >= tx.group_outputs.len() {
                return None;
            }
            tx.group_outputs[index]
        },
        _ => index,
    };
    let count = match source {
        Source::Input | Source::GroupInput => tx.inputs.len(),
        Source::Output | Source::GroupOutput => tx.outputs.len(),
        Source::CellDep => tx.cell_deps.len(),
        Source::HeaderDep => 0,
    };
    if position < count {
        Some(position)
    } else {
        None
    }
}

/// The data of the record that `index` names in `source`.
pub fn load_cell_data(tx: &TxView, source: Source, index: usize) -> (r: Result<Vec<u8>, CKBFSError>)
    ensures
        match cell_at(tx, source, index as int) {
            Some(c) => r is Ok && r->Ok_0@ == c.data@,
            None => r == Err::<Vec<u8>, CKBFSError>(CKBFSError::IndexOutOfBound),
        },
{
    match locate_cell(tx, source, index) {
        Some(p) => {
            let cells = match source {
                Source::Input | Source::GroupInput => &tx.inputs,
                Source::Output | Source::GroupOutput => &tx.outputs,
                _ => &tx.cell_deps,
            };
            Ok(cells[p].data.clone())
        },
        None => Err(CKBFSError::IndexOutOfBound),
    }
}

} // verus!
