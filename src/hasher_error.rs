use vstd::prelude::*;

use ckb_std::error::SysError;

verus! {

/// Failure kinds reported by the checksum validator program.
#[derive(Debug, Clone, Copy, PartialEq, Eq, Structural)]
pub enum CKBFSError {
    IndexOutOfBound,
    ItemMissing,
    LengthNotEnough,
    Encoding,
    Unknown,
    ValidateFailure,
}

/// The exit status that stands for each failure kind.
pub open spec fn hasher_error_code(e: CKBFSError) -> int {
    match e {
        CKBFSError::IndexOutOfBound => -1,
        CKBFSError::ItemMissing => -2,
        CKBFSError::LengthNotEnough => -3,
        CKBFSError::Encoding => -4,
        CKBFSError::Unknown => -100,
        CKBFSError::ValidateFailure => -101,
    }
}

impl CKBFSError {
    /// The process exit status of this failure.
    pub fn code(&self) -> (r: i8)
        ensures
            r == hasher_error_code(*self),
            r != 0,
    {
        match self {
            CKBFSError::IndexOutOfBound => -1,
            CKBFSError::ItemMissing => -2,
            CKBFSError::LengthNotEnough => -3,
            CKBFSError::Encoding => -4,
            CKBFSError::Unknown => -100,
            CKBFSError::ValidateFailure => -101,
        }
    }
}

/// The failure kind that a host error stands for.
pub open spec fn hasher_from_sys_error(err: SysError) -> CKBFSError {
    match err {
        SysError::IndexOutOfBound => CKBFSError::IndexOutOfBound,
        SysError::ItemMissing => CKBFSError::ItemMissing,
        SysError::LengthNotEnough(_) => CKBFSError::LengthNotEnough,
        SysError::Encoding => CKBFSError::Encoding,
        _ => CKBFSError::Unknown,
    }
}

impl From<SysError> for CKBFSError {
    fn from(err: SysError) -> (r: CKBFSError) {
        match err {
            SysError::IndexOutOfBound => CKBFSError::IndexOutOfBound,
            SysError::ItemMissing => CKBFSError::ItemMissing,
            SysError::LengthNotEnough(_) => CKBFSError::LengthNotEnough,
            SysError::Encoding => CKBFSError::Encoding,
            _ => CKBFSError::Unknown,
        }
    }
}

impl vstd::std_specs::convert::FromSpecImpl<SysError> for CKBFSError {
    open spec fn obeys_from_spec() -> bool {
        true
    }

    open spec fn from_spec(err: SysError) -> CKBFSError {
        hasher_from_sys_error(err)
    }
}

} // verus!
