//! Failure kinds of the state transition validator.
use vstd::prelude::*;

use ckb_std::error::SysError;

verus! {

#[verifier::external_type_specification]
pub struct ExSysError(SysError);

/// Failure kinds reported by the state transition validator.
#[derive(Debug, Clone, Copy, PartialEq, Eq, Structural)]
pub enum CKBFSError {
    IndexOutOfBound,
    ItemMissing,
    LengthNotEnough,
    Encoding,
    Unknown,
    InvalidInitialData,
    /// The declared type id is not the one derived from the transaction.
    InvalidTypeId,
    /// A file record was consumed without a successor.
    DeletionForbidden,
    /// The recomputed checksum disagrees with the declared one.
    ChecksumMismatch,
    /// A field that is fixed at creation was changed.
    InvalidFieldUpdate,
    /// No checksum validator program is among the cell dependencies.
    NoChecksumHasherFound,
    /// More than one output carries the file's type.
    DuplicatedOutputs,
    InvalidAppend,
    /// The backlink does not point at the update before, or the backlink list did not
    /// grow by exactly one entry.
    InvalidPreviousPosition,
}

/// The exit status that stands for each failure kind.
pub open spec fn error_code(e: CKBFSError) -> int {
    match e {
        CKBFSError::IndexOutOfBound => -1,
        CKBFSError::ItemMissing => -2,
        CKBFSError::LengthNotEnough => -3,
        CKBFSError::Encoding => -4,
        CKBFSError::Unknown => -100,
        CKBFSError::InvalidInitialData => 101,
        CKBFSError::InvalidTypeId => 102,
        CKBFSError::DeletionForbidden => 103,
        CKBFSError::ChecksumMismatch => 104,
        CKBFSError::InvalidFieldUpdate => 105,
        CKBFSError::NoChecksumHasherFound => 106,
        CKBFSError::DuplicatedOutputs => 107,
        CKBFSError::InvalidAppend => 108,
        CKBFSError::InvalidPreviousPosition => 109,
    }
}

impl CKBFSError {
    /// The process exit status of this failure.
    pub fn code(&self) -> (r: i8)
        ensures
            r == error_code(*self),
            r != 0,
    {
        match self {
            CKBFSError::IndexOutOfBound => -1,
            CKBFSError::ItemMissing => -2,
            CKBFSError::LengthNotEnough => -3,
            CKBFSError::Encoding => -4,
            CKBFSError::Unknown => -100,
            CKBFSError::InvalidInitialData => 101,
            CKBFSError::InvalidTypeId => 102,
            CKBFSError::DeletionForbidden => 103,
            CKBFSError::ChecksumMismatch => 104,
            CKBFSError::InvalidFieldUpdate => 105,
            CKBFSError::NoChecksumHasherFound => 106,
            CKBFSError::DuplicatedOutputs => 107,
            CKBFSError::InvalidAppend => 108,
            CKBFSError::InvalidPreviousPosition => 109,
        }
    }
}

/// The failure kind that a host error stands for.
pub open spec fn from_sys_error(err: SysError) -> CKBFSError {
    match err {
        SysError::IndexOutOfBound => CKBFSError::IndexOutOfBound,
        SysError::ItemMissing => CKBFSError::ItemMissing,
        SysError::LengthNotEnough(_) => CKBFSError::LengthNotEnough,
        SysError::Encoding => CKBFSError::Encoding,
        _ => CKBFSError::Unknown,
    }
}

impl From<SysError> for CKBFSError {
    fn from(err: SysError) -> (r: CKBFSError) {
        match err {
            SysError::IndexOutOfBound => CKBFSError::IndexOutOfBound,
            SysError::ItemMissing => CKBFSError::ItemMissing,
            SysError::LengthNotEnough(_) => CKBFSError::LengthNotEnough,
            SysError::Encoding => CKBFSError::Encoding,
            _ => CKBFSError::Unknown,
        }
    }
}

impl vstd::std_specs::convert::FromSpecImpl<SysError> for CKBFSError {
    open spec fn obeys_from_spec() -> bool {
        true
    }

    open spec fn from_spec(err: SysError) -> CKBFSError {
        from_sys_error(err)
    }
}

} // verus!
