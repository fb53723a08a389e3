//! Reboot into the bootloader, or restart the kernel, for one authorised
//! application only.
//!
//! The caller must present the one fixed identity the board allows, which
//! only an application with an accepted signature can have; an unsigned one
//! is locally unique and never matches, so the check fails closed.
//! Rebooting into the bootloader leaves a marker in backup register 7, which
//! survives the reset and keeps the bootloader resident; a plain restart
//! clears it.
use vstd::prelude::*;
use crate::error::{ErrorCode, CommandReturn};
use crate::credentials::{ShortId, spec_same_id};
use crate::gpbr::{Gpbr, GpbrIndex, GpbrWrite, spec_gpbr_address};

verus! {

/// Driver number.
pub const DRIVER_NUM: usize = 0x9_0001;

/// Marker the bootloader looks for in backup register 7 to stay resident.
pub const DFU_MAGIC: u32 = 0x90;

/// What a command leads to.
#[derive(Clone, Copy, Debug, PartialEq, Eq, Structural)]
pub enum RebootOutcome {
    /// An answer to the process.
    Reply(CommandReturn),
    /// Perform the backup register write, then reset the processor; the
    /// command does not return.
    Reset(GpbrWrite),
}

/// The reboot driver.
pub struct BootloaderReboot {
    pub gpbr: Gpbr,
    /// The only identity permitted to reboot.
    pub allowed: ShortId,
}

/// The reset that command `command_num` (2 or 3) performs.
pub open spec fn spec_reset(command_num: usize) -> GpbrWrite {
    GpbrWrite {
        address: spec_gpbr_address(GpbrIndex::Gpbr7),
        value: if command_num == 2 {
            DFU_MAGIC
        } else {
            0
        },
    }
}

/// The outcome of command `command_num` from a process with identity
/// `caller` when `allowed` may reboot: 0 answers that the driver exists; 1
/// answers whether the caller may reboot; 2 reboots into the bootloader and
/// 3 restarts the kernel, for the allowed caller only; anything else is not
/// supported.
pub open spec fn spec_command(allowed: ShortId, command_num: usize, caller: ShortId) -> RebootOutcome {
    let permitted = spec_same_id(caller, allowed);
    if command_num == 0 {
        RebootOutcome::Reply(CommandReturn::Success)
    } else if command_num == 1 {
        RebootOutcome::Reply(
            CommandReturn::SuccessU32(
                if permitted {
                    1
                } else {
                    0
                },
            ),
        )
    } else if command_num == 2 || command_num == 3 {
        if permitted {
            RebootOutcome::Reset(spec_reset(command_num))
        } else {
            RebootOutcome::Reply(CommandReturn::Failure(ErrorCode::NOSUPPORT))
        }
    } else {
        RebootOutcome::Reply(CommandReturn::Failure(ErrorCode::NOSUPPORT))
    }
}

impl BootloaderReboot {
    pub fn new(gpbr: Gpbr, allowed: ShortId) -> (r: BootloaderReboot)
        ensures
            r.allowed == allowed,
    {
        BootloaderReboot { gpbr, allowed }
    }

    /// Whether the process with identity `caller` may reboot.
    fn permitted(&self, caller: ShortId) -> (r: bool)
        ensures
            r == spec_same_id(caller, self.allowed),
    {
        caller.same_id(&self.allowed)
    }

    /// Handle command `command_num` from the process with identity `caller`.
    pub fn command(&self, command_num: usize, _arg1: usize, _arg2: usize, caller: ShortId) -> (r: RebootOutcome)
        ensures
            r == spec_command(self.allowed, command_num, caller),
    {
        if command_num == 0 {
            RebootOutcome::Reply(CommandReturn::Success)
        } else if command_num == 1 {
            if self.permitted(caller) {
                RebootOutcome::Reply(CommandReturn::SuccessU32(1))
            } else {
                RebootOutcome::Reply(CommandReturn::SuccessU32(0))
            }
        } else if command_num == 2 {
            if !self.permitted(caller) {
                return RebootOutcome::Reply(CommandReturn::Failure(ErrorCode::NOSUPPORT));
            }
            RebootOutcome::Reset(self.gpbr.set(GpbrIndex::Gpbr7, DFU_MAGIC))
        } else if command_num == 3 {
            if !self.permitted(caller) {
                return RebootOutcome::Reply(CommandReturn::Failure(ErrorCode::NOSUPPORT));
            }
            RebootOutcome::Reset(self.gpbr.set(GpbrIndex::Gpbr7, 0))
        } else {
            RebootOutcome::Reply(CommandReturn::Failure(ErrorCode::NOSUPPORT))
        }
    }

    /// Every process may use the driver; there is no per-process state.
    pub fn allocate_grant(&self) -> (r: Result<(), ErrorCode>)
        ensures
            r is Ok,
    {
        Ok(())
    }
}

/// Only the allowed identity can reset the board, and only through
/// commands 2 and 3; a process without that identity (an unsigned one in
/// particular) is refused and nothing is written. A reboot into the
/// bootloader leaves the marker in backup register 7; a restart clears it.
pub proof fn only_allowed_caller_resets(allowed: ShortId, command_num: usize, caller: ShortId)
    ensures
        spec_command(allowed, command_num, caller) is Reset ==> spec_same_id(caller, allowed)
            && (command_num == 2 || command_num == 3),
        !spec_same_id(caller, allowed) && (command_num == 2 || command_num == 3) ==> spec_command(
            allowed,
            command_num,
            caller,
        ) == RebootOutcome::Reply(CommandReturn::Failure(ErrorCode::NOSUPPORT)),
        caller is LocallyUnique ==> spec_command(allowed, command_num, caller) is Reply,
        spec_same_id(caller, allowed) && command_num == 2 ==> spec_command(allowed, command_num, caller)
            == RebootOutcome::Reset(GpbrWrite { address: spec_gpbr_address(GpbrIndex::Gpbr7), value: DFU_MAGIC }),
        spec_same_id(caller, allowed) && command_num == 3 ==> spec_command(allowed, command_num, caller)
            == RebootOutcome::Reset(GpbrWrite { address: spec_gpbr_address(GpbrIndex::Gpbr7), value: 0 }),
{
}

} // verus!
