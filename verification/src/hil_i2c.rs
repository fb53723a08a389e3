//! The I2C interface that drivers offer and capsules use.
use vstd::prelude::*;
use crate::error::ErrorCode;

verus! {

/// Why an I2C transfer failed.
#[derive(Clone, Copy, Debug, PartialEq, Eq, Structural)]
pub enum I2cError {
    AddressNak,
    DataNak,
    ArbitrationLost,
    Overrun,
    NotSupported,
    Busy,
}

/// The error code an I2C error is reported as.
pub open spec fn spec_i2c_error_code(e: I2cError) -> ErrorCode {
    match e {
        I2cError::AddressNak => ErrorCode::NOACK,
        I2cError::DataNak => ErrorCode::NOACK,
        I2cError::ArbitrationLost => ErrorCode::RESERVE,
        I2cError::Overrun => ErrorCode::SIZE,
        I2cError::NotSupported => ErrorCode::NOSUPPORT,
        I2cError::Busy => ErrorCode::BUSY,
    }
}

/// The error code an I2C error is reported as.
pub fn i2c_error_code(e: I2cError) -> (r: ErrorCode)
    ensures
        r == spec_i2c_error_code(e),
{
    match e {
        I2cError::AddressNak => ErrorCode::NOACK,
        I2cError::DataNak => ErrorCode::NOACK,
        I2cError::ArbitrationLost => ErrorCode::RESERVE,
        I2cError::Overrun => ErrorCode::SIZE,
        I2cError::NotSupported => ErrorCode::NOSUPPORT,
        I2cError::Busy => ErrorCode::BUSY,
    }
}

/// A request made of an I2C device: the bytes handed over, the lengths
/// asked for and, for a transfer, whether it started or the error with
/// which it could not.
pub ghost enum I2cRequest {
    Enable,
    Disable,
    WriteRead(Seq<u8>, usize, usize, Result<(), I2cError>),
    Write(Seq<u8>, usize, Result<(), I2cError>),
}

/// Whether a transfer started, or the error with which it could not.
pub open spec fn transfer_status(r: Result<(), (I2cError, Vec<u8>)>) -> Result<(), I2cError> {
    match r {
        Ok(()) => Ok(()),
        Err((e, _)) => Err(e),
    }
}

/// One device on an I2C bus, as a capsule sees it. A transfer that cannot
/// start hands its buffer back with the error; one that starts completes
/// later through the capsule's `command_complete`. Each call is recorded,
/// with its arguments and, for a transfer, its answer, among the device's
/// requests. An implementation meets these contracts only if it defines the
/// record to follow its calls; the empty default only lets an
/// implementation that keeps no record (a test double, a board driver
/// outside verification) be written, and such an implementation does not
/// meet them. Code generic over the device never sees the default.
pub trait I2CDevice {
    /// The requests this device has been given, oldest first.
    closed spec fn requests(&self) -> Seq<I2cRequest> {
        Seq::empty()
    }

    fn enable(&mut self)
        ensures
            final(self).requests() == old(self).requests().push(I2cRequest::Enable),
    ;

    fn disable(&mut self)
        ensures
            final(self).requests() == old(self).requests().push(I2cRequest::Disable),
    ;

    /// Write `write_len` bytes of `data`, then read `read_len` bytes into it.
    fn write_read(&mut self, data: Vec<u8>, write_len: usize, read_len: usize) -> (r: Result<
        (),
        (I2cError, Vec<u8>),
    >)
        ensures
            final(self).requests() == old(self).requests().push(
                I2cRequest::WriteRead(data@, write_len, read_len, transfer_status(r)),
            ),
            r matches Err((_, b)) ==> b@ == data@,
    ;

    /// Write the first `len` bytes of `data`.
    fn write(&mut self, data: Vec<u8>, len: usize) -> (r: Result<(), (I2cError, Vec<u8>)>)
        ensures
            final(self).requests() == old(self).requests().push(
                I2cRequest::Write(data@, len, transfer_status(r)),
            ),
            r matches Err((_, b)) ==> b@ == data@,
    ;
}

} // verus!
