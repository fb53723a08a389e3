//! Error codes shared by every driver and capsule in the crate.
use vstd::prelude::*;

verus! {

/// Standard error codes, in the order (and with the numbering) that the Tock
/// system-call ABI gives them.
#[allow(non_camel_case_types)]
#[derive(Clone, Copy, Debug, PartialEq, Eq, Structural)]
pub enum ErrorCode {
    FAIL,
    BUSY,
    ALREADY,
    OFF,
    RESERVE,
    INVAL,
    SIZE,
    CANCEL,
    NOMEM,
    NOSUPPORT,
    NODEVICE,
    UNINSTALLED,
    NOACK,
}

/// The number a process sees for each error code.
pub open spec fn error_code_number(e: ErrorCode) -> nat {
    match e {
        ErrorCode::FAIL => 1,
        ErrorCode::BUSY => 2,
        ErrorCode::ALREADY => 3,
        ErrorCode::OFF => 4,
        ErrorCode::RESERVE => 5,
        ErrorCode::INVAL => 6,
        ErrorCode::SIZE => 7,
        ErrorCode::CANCEL => 8,
        ErrorCode::NOMEM => 9,
        ErrorCode::NOSUPPORT => 10,
        ErrorCode::NODEVICE => 11,
        ErrorCode::UNINSTALLED => 12,
        ErrorCode::NOACK => 13,
    }
}

impl ErrorCode {
    /// The error's number in the system-call ABI.
    pub fn number(self) -> (n: usize)
        ensures
            n == error_code_number(self),
    {
        match self {
            ErrorCode::FAIL => 1,
            ErrorCode::BUSY => 2,
            ErrorCode::ALREADY => 3,
            ErrorCode::OFF => 4,
            ErrorCode::RESERVE => 5,
            ErrorCode::INVAL => 6,
            ErrorCode::SIZE => 7,
            ErrorCode::CANCEL => 8,
            ErrorCode::NOMEM => 9,
            ErrorCode::NOSUPPORT => 10,
            ErrorCode::NODEVICE => 11,
            ErrorCode::UNINSTALLED => 12,
            ErrorCode::NOACK => 13,
        }
    }
}

/// What a system call's `command` hands back to the process.
#[derive(Clone, Copy, Debug, PartialEq, Eq, Structural)]
pub enum CommandReturn {
    Success,
    SuccessU32(u32),
    Failure(ErrorCode),
}

} // verus!
