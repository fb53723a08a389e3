//! The vocabulary of a CAN controller: identifiers, bus errors and states,
//! timing and filter parameters, and the operations a controller offers.
use vstd::prelude::*;
use crate::error::ErrorCode;

verus! {

/// Bytes in a classic CAN frame.
pub const STANDARD_CAN_PACKET_SIZE: usize = 8;

/// A CAN frame buffer.
pub type Frame = [u8; 8];

/// An 11-bit (standard) or 29-bit (extended) identifier.
#[derive(Clone, Copy, Debug, PartialEq, Eq, Structural)]
pub enum CanId {
    Standard(u16),
    Extended(u32),
}

/// Errors reported on the bus.
#[derive(Clone, Copy, Debug, PartialEq, Eq, Structural)]
pub enum CanError {
    Stuff,
    Form,
    Ack,
    BitRecessive,
    BitDominant,
    Crc,
    SetBySoftware,
    BusOff,
    Passive,
    Warning,
}

/// The number a process sees for each bus error.
pub open spec fn can_error_number(e: CanError) -> nat {
    match e {
        CanError::Stuff => 0,
        CanError::Form => 1,
        CanError::Ack => 2,
        CanError::BitRecessive => 3,
        CanError::BitDominant => 4,
        CanError::Crc => 5,
        CanError::SetBySoftware => 6,
        CanError::BusOff => 7,
        CanError::Passive => 8,
        CanError::Warning => 9,
    }
}

impl CanError {
    /// The error's number as handed to processes.
    pub fn number(self) -> (n: usize)
        ensures
            n == can_error_number(self),
    {
        match self {
            CanError::Stuff => 0,
            CanError::Form => 1,
            CanError::Ack => 2,
            CanError::BitRecessive => 3,
            CanError::BitDominant => 4,
            CanError::Crc => 5,
            CanError::SetBySoftware => 6,
            CanError::BusOff => 7,
            CanError::Passive => 8,
            CanError::Warning => 9,
        }
    }
}

/// The state of the controller.
#[derive(Clone, Copy, Debug, PartialEq, Eq, Structural)]
pub enum CanState {
    Running,
    Error(CanError),
    Disabled,
}

/// How the controller takes part in the bus.
#[derive(Clone, Copy, Debug, PartialEq, Eq, Structural)]
pub enum OperationMode {
    Loopback,
    Monitoring,
    Freeze,
    Normal,
}

/// Nominal bit timing, in time quanta.
#[derive(Clone, Copy, Debug, PartialEq, Eq, Structural)]
pub struct BitTiming {
    pub segment1: u8,
    pub segment2: u8,
    pub propagation: u8,
    pub sync_jump_width: u32,
    pub baud_rate_prescaler: u32,
}

/// Whether a filter lists identifiers or masks them.
#[derive(Clone, Copy, Debug, PartialEq, Eq, Structural)]
pub enum IdentifierMode {
    List,
    Mask,
}

/// Width of a filter slot.
#[derive(Clone, Copy, Debug, PartialEq, Eq, Structural)]
pub enum ScaleBits {
    Bits16,
    Bits32,
}

/// One hardware acceptance filter.
#[derive(Clone, Copy, Debug, PartialEq, Eq, Structural)]
pub struct FilterParameters {
    pub number: u32,
    pub scale_bits: ScaleBits,
    pub identifier_mode: IdentifierMode,
    pub fifo_number: usize,
    pub id: CanId,
    pub mask: u32,
}

/// The identifier's numeric value, whatever its class.
pub open spec fn spec_raw_id(id: CanId) -> u32 {
    match id {
        CanId::Standard(v) => v as u32,
        CanId::Extended(v) => v,
    }
}

/// Whether the identifier is a 29-bit one.
pub open spec fn spec_is_extended(id: CanId) -> bool {
    id is Extended
}

/// The identifier's numeric value, whatever its class.
pub fn raw_id(id: CanId) -> (r: u32)
    ensures
        r == spec_raw_id(id),
{
    match id {
        CanId::Standard(v) => v as u32,
        CanId::Extended(v) => v,
    }
}

/// Whether the identifier is a 29-bit one.
pub fn is_extended(id: CanId) -> (r: bool)
    ensures
        r == spec_is_extended(id),
{
    match id {
        CanId::Standard(_) => false,
        CanId::Extended(_) => true,
    }
}

/// A request made of a CAN controller, with the controller's answer where
/// it is a plain status.
pub ghost enum CanRequest {
    Enable(Result<(), ErrorCode>),
    Disable(Result<(), ErrorCode>),
    Send(CanId, Frame, usize),
    StartReceive(Frame),
    StopReceive(Result<(), ErrorCode>),
    EnableFilter(FilterParameters, Result<(), ErrorCode>),
    DisableFilter(u32, Result<(), ErrorCode>),
}

/// The requests a CAN controller has been given, oldest first. Each
/// operation of `CanController` and `CanFilter` adds its own request, and
/// nothing else changes the record. An implementation meets the contracts
/// of these traits only if it defines the record to follow its calls; the
/// empty default only lets an implementation that keeps no record (a test
/// bench, a board driver outside verification) be written, and such an
/// implementation does not meet them. Code generic over the controller
/// never sees the default.
pub trait CanRequests {
    closed spec fn requests(&self) -> Seq<CanRequest> {
        Seq::empty()
    }
}


/// The operations of a CAN controller that the capsules drive. Buffers move
/// into the controller on success and come back with the error on failure.
/// Nothing is assumed of what an implementation returns; each call is
/// recorded, with its arguments, among the controller's requests.
pub trait CanController: CanRequests {
    fn enable(&mut self) -> (r: Result<(), ErrorCode>)
        ensures
            final(self).requests() == old(self).requests().push(CanRequest::Enable(r)),
    ;

    fn disable(&mut self) -> (r: Result<(), ErrorCode>)
        ensures
            final(self).requests() == old(self).requests().push(CanRequest::Disable(r)),
    ;

    fn send(&mut self, id: CanId, buffer: Frame, len: usize) -> (r: Result<(), (ErrorCode, Frame)>)
        ensures
            final(self).requests() == old(self).requests().push(CanRequest::Send(id, buffer, len)),
    ;

    fn start_receive_process(&mut self, buffer: Frame) -> (r: Result<(), (ErrorCode, Frame)>)
        ensures
            final(self).requests() == old(self).requests().push(CanRequest::StartReceive(buffer)),
    ;

    fn stop_receive(&mut self) -> (r: Result<(), ErrorCode>)
        ensures
            final(self).requests() == old(self).requests().push(CanRequest::StopReceive(r)),
    ;
}

/// Hardware acceptance filters of a CAN controller.
pub trait CanFilter: CanRequests {
    fn enable_filter(&mut self, filter: FilterParameters) -> (r: Result<(), ErrorCode>)
        ensures
            final(self).requests() == old(self).requests().push(CanRequest::EnableFilter(filter, r)),
    ;

    fn disable_filter(&mut self, number: u32) -> (r: Result<(), ErrorCode>)
        ensures
            final(self).requests() == old(self).requests().push(CanRequest::DisableFilter(number, r)),
    ;

    /// The number of filter slots, as `filter_count` reports it. The
    /// default, like that of the request record, only lets an
    /// implementation that does not define it be written.
    closed spec fn filter_slots(&self) -> nat {
        0
    }

    fn filter_count(&self) -> (r: usize)
        ensures
            r == self.filter_slots(),
    ;
}

} // verus!
